//! Named boolean toggles. A `SettingList` is an ordered catalog of settings;
//! lookup scans the list and returns the first entry with the asked-for kind.
//! Looking up a kind with no entry is a contract violation, excluded by
//! `requires` rather than handled at run time.

use vstd::prelude::*;

use crate::defaults::SettingType;

verus! {

/// Whether a user interaction changed a setting.
#[derive(Clone, Copy, PartialEq, Eq, Structural, Debug)]
pub enum SettingUpdated {
    NoChange,
    Updated,
}

/// One toggle: its kind, its current value, and its user-facing description.
#[derive(Clone, Debug)]
pub struct Setting {
    pub kind: SettingType,
    pub enabled: bool,
    pub label: String,
    pub explanation: String,
}

impl Setting {
    pub fn new(kind: SettingType, label: &str, explanation: &str, default_enabled: bool) -> (r:
        Self)
        ensures
            r.kind == kind,
            r.enabled == default_enabled,
            r.label@ == label@,
            r.explanation@ == explanation@,
    {
        Self { kind, label: label.to_owned(), explanation: explanation.to_owned(), enabled: default_enabled }
    }
}

/// Whether some entry of `list` has kind `kind`.
pub open spec fn spec_has_setting(list: Seq<Setting>, kind: SettingType) -> bool {
    exists|i: int| 0 <= i < list.len() && list[i].kind == kind
}

/// The value of the first entry of `list` with kind `kind`, from position `i` on.
pub open spec fn spec_check_from(list: Seq<Setting>, kind: SettingType, i: int) -> bool
    decreases list.len() - i,
{
    if i < 0 || i >= list.len() {
        arbitrary()
    } else if list[i].kind == kind {
        list[i].enabled
    } else {
        spec_check_from(list, kind, i + 1)
    }
}

/// The value of the first entry of `list` with kind `kind`.
pub open spec fn spec_check(list: Seq<Setting>, kind: SettingType) -> bool {
    spec_check_from(list, kind, 0)
}

/// An ordered catalog of settings.
#[derive(Clone, Debug)]
pub struct SettingList {
    pub list: Vec<Setting>,
}

impl SettingList {
    /// Look up the value of the toggle `kind`: the first entry with that kind
    /// decides. The kind must have an entry — with the fixed catalog it
    /// always does.
    pub fn check(&self, kind: SettingType) -> (r: bool)
        requires
            spec_has_setting(self.list@, kind),
        ensures
            r == spec_check(self.list@, kind),
    {
        let n = self.list.len();
        let mut i: usize = 0;
        loop
            invariant
                0 <= i <= n,
                n == self.list@.len(),
                exists|j: int| i <= j < self.list@.len() && self.list@[j].kind == kind,
                spec_check_from(self.list@, kind, i as int) == spec_check(self.list@, kind),
            decreases self.list@.len() - i,
        {
            proof {
                let j = choose|j: int|
                    i <= j < self.list@.len() && self.list@[j].kind == kind;
                assert(i < self.list@.len());
            }
            if self.list[i].kind == kind {
                return self.list[i].enabled;
            }
            i = i + 1;
        }
    }
}

} // verus!
