//! The recognised system variants, their labels and their marker sequences.

use vstd::prelude::*;
use crate::bytes::{occurs, occurs_in};

verus! {

/// An installed system variant, told apart by what its marker file holds.
#[derive(Clone, Copy, Debug, PartialEq, Eq, Structural)]
pub enum SubSystem {
    OfficialCoreELEC,
    OfficialEmuELEC,
    HybridCoreELEC,
    HybridEmuELEC,
}

/// Every variant, in the order in which marker sequences are tried.
pub open spec fn all_subsystems() -> Seq<SubSystem> {
    seq![
        SubSystem::OfficialCoreELEC,
        SubSystem::OfficialEmuELEC,
        SubSystem::HybridCoreELEC,
        SubSystem::HybridEmuELEC,
    ]
}

/// The variant whose marker sequence is found first, in priority order, in `buf`.
pub open spec fn buffer_class(buf: Seq<u8>) -> Option<SubSystem> {
    if occurs_in(SubSystem::OfficialCoreELEC.flag(), buf) {
        Some(SubSystem::OfficialCoreELEC)
    } else if occurs_in(SubSystem::OfficialEmuELEC.flag(), buf) {
        Some(SubSystem::OfficialEmuELEC)
    } else if occurs_in(SubSystem::HybridCoreELEC.flag(), buf) {
        Some(SubSystem::HybridCoreELEC)
    } else if occurs_in(SubSystem::HybridEmuELEC.flag(), buf) {
        Some(SubSystem::HybridEmuELEC)
    } else {
        None
    }
}

/// A marker file that holds the marker sequence of `s` anywhere, between any
/// other bytes, and no other variant's sequence, is of class `s`.
pub proof fn lemma_marker_found(s: SubSystem, before: Seq<u8>, after: Seq<u8>)
    requires
        forall|o: SubSystem| o != s ==> !occurs_in(o.flag(), before + s.flag() + after),
    ensures
        buffer_class(before + s.flag() + after) == Some(s),
{
    let buf = before + s.flag() + after;
    let k = before.len() as int;
    assert(buf.subrange(k, k + s.flag().len()) =~= s.flag());
    assert(occurs_in(s.flag(), buf));
}

/// A marker file that holds none of the marker sequences has no class.
pub proof fn lemma_no_marker(buf: Seq<u8>)
    requires
        forall|o: SubSystem| !occurs_in(o.flag(), buf),
    ensures
        buffer_class(buf) == None::<SubSystem>,
{
    assert(!occurs_in(SubSystem::OfficialCoreELEC.flag(), buf));
    assert(!occurs_in(SubSystem::OfficialEmuELEC.flag(), buf));
    assert(!occurs_in(SubSystem::HybridCoreELEC.flag(), buf));
    assert(!occurs_in(SubSystem::HybridEmuELEC.flag(), buf));
}

impl SubSystem {
    /// The human-readable name of the variant.
    pub open spec fn label(self) -> Seq<char> {
        match self {
            SubSystem::OfficialCoreELEC => "Official CoreELEC"@,
            SubSystem::OfficialEmuELEC => "Official EmuELEC"@,
            SubSystem::HybridCoreELEC => "Hybrid CoreELEC"@,
            SubSystem::HybridEmuELEC => "Hybrid EmuELEC"@,
        }
    }

    /// The marker sequence: "CoreELEC on eMMC", "EmuELEC on eMMC",
    /// "HybridELEC (CE) on eMMC" and "HybridELEC (EE) on eMMC" in ASCII.
    pub open spec fn flag(self) -> Seq<u8> {
        match self {
            SubSystem::OfficialCoreELEC => seq![
                67u8, 111, 114, 101, 69, 76, 69, 67, 32, 111, 110, 32, 101, 77, 77, 67,
            ],
            SubSystem::OfficialEmuELEC => seq![
                69u8, 109, 117, 69, 76, 69, 67, 32, 111, 110, 32, 101, 77, 77, 67,
            ],
            SubSystem::HybridCoreELEC => seq![
                72u8, 121, 98, 114, 105, 100, 69, 76, 69, 67, 32, 40, 67, 69, 41, 32, 111,
                110, 32, 101, 77, 77, 67,
            ],
            SubSystem::HybridEmuELEC => seq![
                72u8, 121, 98, 114, 105, 100, 69, 76, 69, 67, 32, 40, 69, 69, 41, 32, 111,
                110, 32, 101, 77, 77, 67,
            ],
        }
    }

    pub fn as_str(&self) -> (r: &'static str)
        ensures
            r@ == self.label(),
    {
        match self {
            SubSystem::OfficialCoreELEC => "Official CoreELEC",
            SubSystem::OfficialEmuELEC => "Official EmuELEC",
            SubSystem::HybridCoreELEC => "Hybrid CoreELEC",
            SubSystem::HybridEmuELEC => "Hybrid EmuELEC",
        }
    }

    /// Every variant, in priority order.
    pub fn iterator() -> (r: Vec<SubSystem>)
        ensures
            r@ == all_subsystems(),
    {
        let r = vec![
            SubSystem::OfficialCoreELEC,
            SubSystem::OfficialEmuELEC,
            SubSystem::HybridCoreELEC,
            SubSystem::HybridEmuELEC,
        ];
        assert(r@ =~= all_subsystems());
        r
    }

    /// The marker sequence of this variant.
    pub fn cfgload_flag(&self) -> (r: Vec<u8>)
        ensures
            r@ == self.flag(),
    {
        let r = match self {
            SubSystem::OfficialCoreELEC => vec![
                67u8, 111, 114, 101, 69, 76, 69, 67, 32, 111, 110, 32, 101, 77, 77, 67,
            ],
            SubSystem::OfficialEmuELEC => vec![
                69u8, 109, 117, 69, 76, 69, 67, 32, 111, 110, 32, 101, 77, 77, 67,
            ],
            SubSystem::HybridCoreELEC => vec![
                72u8, 121, 98, 114, 105, 100, 69, 76, 69, 67, 32, 40, 67, 69, 41, 32, 111,
                110, 32, 101, 77, 77, 67,
            ],
            SubSystem::HybridEmuELEC => vec![
                72u8, 121, 98, 114, 105, 100, 69, 76, 69, 67, 32, 40, 69, 69, 41, 32, 111,
                110, 32, 101, 77, 77, 67,
            ],
        };
        assert(r@ =~= self.flag());
        r
    }
}

/// The variant named by the content of a marker file: the first variant, in
/// priority order, whose marker sequence occurs in `buffer`; `None` if none does.
pub fn check_buffer_cfgload_system(buffer: &[u8]) -> (r: Option<SubSystem>)
    ensures
        r == buffer_class(buffer@),
{
    let subsystems = SubSystem::iterator();
    let mut i: usize = 0;
    while i < subsystems.len()
        invariant
            subsystems@ == all_subsystems(),
            i <= subsystems@.len(),
            forall|j: int| 0 <= j < i ==> !occurs_in(#[trigger] subsystems@[j].flag(), buffer@),
        decreases subsystems@.len() - i,
    {
        let subsystem = subsystems[i];
        let cfgload_flag = subsystem.cfgload_flag();
        if occurs(cfgload_flag.as_slice(), buffer) {
            assert(!occurs_in(subsystems@[0].flag(), buffer@) || i == 0);
            return Some(subsystem);
        }
        i += 1;
    }
    assert(!occurs_in(subsystems@[0].flag(), buffer@));
    assert(!occurs_in(subsystems@[1].flag(), buffer@));
    assert(!occurs_in(subsystems@[2].flag(), buffer@));
    assert(!occurs_in(subsystems@[3].flag(), buffer@));
    None
}

} // verus!
