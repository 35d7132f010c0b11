//! The plural-rules payload record and the keys of the plurals domain.

use vstd::prelude::*;
use crate::resource::ResourceKey;

verus! {

/// The mathematical value of a [`PluralRuleStringsV1`] record: each plural
/// category either carries a rule expression (a sequence of characters) or
/// is absent.
pub struct PluralRulesView {
    pub zero: Option<Seq<char>>,
    pub one: Option<Seq<char>>,
    pub two: Option<Seq<char>>,
    pub few: Option<Seq<char>>,
    pub many: Option<Seq<char>>,
}

/// Plural rule strings in UTS 35 syntax, with one optional field for five of
/// the six standard plural forms.  An absent field means that grammatical
/// category has no distinct rule and falls back to the implicit "other"
/// category, which is never itself stored; a record with every field absent
/// is valid and means "always other".  The stored strings are opaque grammar
/// text, not validated by this layer.
#[derive(Debug, PartialEq, Eq, Hash)]
pub struct PluralRuleStringsV1 {
    pub zero: Option<String>,
    pub one: Option<String>,
    pub two: Option<String>,
    pub few: Option<String>,
    pub many: Option<String>,
}

/// The value of one optional rule field.
pub open spec fn field_view(f: Option<String>) -> Option<Seq<char>> {
    match f {
        Some(s) => Some(s@),
        None => None,
    }
}

impl View for PluralRuleStringsV1 {
    type V = PluralRulesView;

    open spec fn view(&self) -> PluralRulesView {
        PluralRulesView {
            zero: field_view(self.zero),
            one: field_view(self.one),
            two: field_view(self.two),
            few: field_view(self.few),
            many: field_view(self.many),
        }
    }
}

impl DeepView for PluralRuleStringsV1 {
    type V = PluralRulesView;

    open spec fn deep_view(&self) -> PluralRulesView {
        self.view()
    }
}

/// Copies one optional rule field.
fn clone_field(f: &Option<String>) -> (r: Option<String>)
    ensures
        field_view(r) == field_view(*f),
{
    match f {
        Some(s) => Some(s.clone()),
        None => None,
    }
}

impl Clone for PluralRuleStringsV1 {
    fn clone(&self) -> (res: Self)
        ensures
            res@ == self@,
    {
        PluralRuleStringsV1 {
            zero: clone_field(&self.zero),
            one: clone_field(&self.one),
            two: clone_field(&self.two),
            few: clone_field(&self.few),
            many: clone_field(&self.many),
        }
    }
}

/// The record whose every field is absent: "always other".
pub open spec fn empty_record() -> PluralRulesView {
    PluralRulesView { zero: None, one: None, two: None, few: None, many: None }
}

impl Default for PluralRuleStringsV1 {
    fn default() -> (res: Self)
        ensures
            res@ == empty_record(),
    {
        PluralRuleStringsV1 { zero: None, one: None, two: None, few: None, many: None }
    }
}

/// The key of version 1 cardinal plural rules.
pub fn cardinal_v1() -> (r: ResourceKey)
    ensures
        r@.category == "plurals"@,
        r@.sub_category == "cardinal"@,
        r@.version == 1u32,
{
    ResourceKey {
        category: "plurals".to_owned(),
        sub_category: "cardinal".to_owned(),
        version: 1,
    }
}

/// The key of version 1 ordinal plural rules.
pub fn ordinal_v1() -> (r: ResourceKey)
    ensures
        r@.category == "plurals"@,
        r@.sub_category == "ordinal"@,
        r@.version == 1u32,
{
    ResourceKey {
        category: "plurals".to_owned(),
        sub_category: "ordinal".to_owned(),
        version: 1,
    }
}

} // verus!
