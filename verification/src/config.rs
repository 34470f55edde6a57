use vstd::prelude::*;

use crate::pattern::{compile_pattern, regex_ok};

verus! {

/// The item field a filter or rename rule applies to.
#[derive(Debug, Clone, Copy, PartialEq, Eq, Structural)]
pub enum ItemField {
    Group,
    Name,
    Title,
}

pub open spec fn item_field_str(f: ItemField) -> Seq<char> {
    match f {
        ItemField::Group => "Group"@,
        ItemField::Name => "Name"@,
        ItemField::Title => "Title"@,
    }
}

impl ItemField {
    /// The display name of the field; stands in for `Display`.
    pub fn display_name(&self) -> (r: String)
        ensures
            r@ == item_field_str(*self),
    {
        match self {
            ItemField::Group => String::from_str("Group"),
            ItemField::Name => String::from_str("Name"),
            ItemField::Title => String::from_str("Title"),
        }
    }
}

/// Whether matching rules keep or drop an item.
#[derive(Debug, Clone, Copy, PartialEq, Eq, Structural)]
pub enum FilterMode {
    Discard,
    Include,
}

/// One filter rule. `prepare` compiles the pattern; a configuration
/// with an invalid pattern is rejected before this point, so `prepare`
/// asks for a valid one.
#[derive(Debug, Clone)]
pub struct ConfigFilter {
    pub field: ItemField,
    pub pattern: String,
    pub re: Option<regex::Regex>,
}

impl ConfigFilter {
    pub fn prepare(&mut self)
        requires
            regex_ok(old(self).pattern@),
        ensures
            final(self).re is Some,
            final(self).field == old(self).field,
            final(self).pattern == old(self).pattern,
    {
        match compile_pattern(self.pattern.as_str()) {
            Some(re) => {
                self.re = Some(re);
            },
            None => {
                proof {
                    assert(false);
                }
            },
        }
    }
}

#[derive(Debug, Clone)]
pub struct ConfigFilters {
    pub mode: FilterMode,
    pub rules: Vec<ConfigFilter>,
}

impl ConfigFilters {
    pub fn is_include(&self) -> (r: bool)
        ensures
            r == (self.mode == FilterMode::Include),
    {
        match self.mode {
            FilterMode::Include => true,
            FilterMode::Discard => false,
        }
    }
}

/// One rename rule of the plain configuration layout.
#[derive(Debug, Clone)]
pub struct ConfigRename {
    pub field: ItemField,
    pub pattern: String,
    pub new_name: String,
    pub re: Option<regex::Regex>,
}

impl ConfigRename {
    pub fn prepare(&mut self)
        requires
            regex_ok(old(self).pattern@),
        ensures
            final(self).re is Some,
            final(self).field == old(self).field,
            final(self).pattern == old(self).pattern,
            final(self).new_name == old(self).new_name,
    {
        match compile_pattern(self.pattern.as_str()) {
            Some(re) => {
                self.re = Some(re);
            },
            None => {
                proof {
                    assert(false);
                }
            },
        }
    }
}

/// One output target of the plain configuration layout.
#[derive(Debug, Clone)]
pub struct ConfigTarget {
    pub filename: String,
    pub filter: ConfigFilters,
    pub rename: Vec<ConfigRename>,
}

#[derive(Debug, Clone)]
pub struct ConfigInput {
    pub url: String,
    pub persist: String,
}

#[derive(Debug, Clone)]
pub struct ConfigApi {
    pub host: String,
    pub port: u16,
    pub web_root: String,
}

impl ConfigApi {
    pub fn prepare(&mut self)
        ensures
            final(self).web_root@ == if old(self).web_root@.len() == 0 {
                "./web"@
            } else {
                old(self).web_root@
            },
            final(self).host == old(self).host,
            final(self).port == old(self).port,
    {
        if self.web_root.as_str().is_empty() {
            self.web_root = String::from_str("./web");
        }
    }
}

/// Every rule of a target carries its compiled pattern.
pub open spec fn target_rules_prepared(t: ConfigTarget) -> bool {
    &&& forall|i: int|
        0 <= i < t.filter.rules@.len() ==> (#[trigger] t.filter.rules@[i]).re is Some
    &&& forall|i: int| 0 <= i < t.rename@.len() ==> (#[trigger] t.rename@[i]).re is Some
}

/// Every rule pattern of a target compiles.
pub open spec fn target_patterns_ok(t: ConfigTarget) -> bool {
    &&& forall|i: int|
        0 <= i < t.filter.rules@.len() ==> regex_ok((#[trigger] t.filter.rules@[i]).pattern@)
    &&& forall|i: int| 0 <= i < t.rename@.len() ==> regex_ok((#[trigger] t.rename@[i]).pattern@)
}

fn prepare_target_rules(t: &mut ConfigTarget)
    requires
        target_patterns_ok(*old(t)),
    ensures
        target_rules_prepared(*final(t)),
{
    let n = t.filter.rules.len();
    let mut i: usize = 0;
    while i < n
        invariant
            i <= n,
            n == t.filter.rules@.len(),
            t.filter.rules@.len() == old(t).filter.rules@.len(),
            forall|k: int|
                i <= k < n ==> #[trigger] t.filter.rules@[k] == old(t).filter.rules@[k],
            target_patterns_ok(*old(t)),
            t.rename == old(t).rename,
            forall|k: int| 0 <= k < i ==> (#[trigger] t.filter.rules@[k]).re is Some,
        decreases n - i,
    {
        t.filter.rules[i].prepare();
        i += 1;
    }
    let m = t.rename.len();
    let mut j: usize = 0;
    while j < m
        invariant
            j <= m,
            m == t.rename@.len(),
            t.rename@.len() == old(t).rename@.len(),
            forall|k: int| j <= k < m ==> #[trigger] t.rename@[k] == old(t).rename@[k],
            target_patterns_ok(*old(t)),
            n == t.filter.rules@.len(),
            forall|k: int| 0 <= k < n ==> (#[trigger] t.filter.rules@[k]).re is Some,
            forall|k: int| 0 <= k < j ==> (#[trigger] t.rename@[k]).re is Some,
        decreases m - j,
    {
        t.rename[j].prepare();
        j += 1;
    }
}

/// The plain configuration layout: one API block, one input, and the
/// output targets.
#[derive(Debug, Clone)]
pub struct Config {
    pub api: ConfigApi,
    pub input: ConfigInput,
    pub targets: Vec<ConfigTarget>,
}

/// Every rule pattern of every target compiles.
pub open spec fn config_patterns_ok(c: Config) -> bool {
    forall|t: int| 0 <= t < c.targets@.len() ==> target_patterns_ok(#[trigger] c.targets@[t])
}

impl Config {
    pub fn prepare(&mut self)
        requires
            config_patterns_ok(*old(self)),
        ensures
            final(self).api.web_root@ == if old(self).api.web_root@.len() == 0 {
                "./web"@
            } else {
                old(self).api.web_root@
            },
            final(self).targets@.len() == old(self).targets@.len(),
            forall|k: int|
                0 <= k < final(self).targets@.len() ==> target_rules_prepared(
                    #[trigger] final(self).targets@[k],
                ),
    {
        self.api.prepare();
        let n = self.targets.len();
        let mut t: usize = 0;
        while t < n
            invariant
                t <= n,
                n == self.targets@.len(),
                self.targets@.len() == old(self).targets@.len(),
                forall|k: int|
                    t <= k < n ==> #[trigger] self.targets@[k] == old(self).targets@[k],
                forall|k: int|
                    0 <= k < t ==> target_rules_prepared(#[trigger] self.targets@[k]),
                config_patterns_ok(*old(self)),
                self.api.web_root@ == if old(self).api.web_root@.len() == 0 {
                    "./web"@
                } else {
                    old(self).api.web_root@
                },
            decreases n - t,
        {
            proof {
                assert(target_patterns_ok(old(self).targets@[t as int]));
            }
            prepare_target_rules(&mut self.targets[t]);
            t += 1;
        }
    }
}

} // verus!
