//! The addressing model: resource keys, request options, and requests.
//!
//! A [`ResourceKey`] identifies a *class* of locale data (plural rules,
//! date symbols, ...), never a specific locale.  A [`ResourceOptions`]
//! selects the concrete instance within a key's domain, minimally by a
//! language identifier.  A [`DataRequest`] pairs the two and is the unit of
//! addressing for every load operation.

use vstd::prelude::*;

verus! {

/// The mathematical value of a [`ResourceKey`].
pub struct KeyView {
    pub category: Seq<char>,
    pub sub_category: Seq<char>,
    pub version: u32,
}

/// The mathematical value of a [`ResourceOptions`].
pub struct OptionsView {
    pub language: Seq<char>,
    pub variant: Option<Seq<char>>,
}

/// The mathematical value of a [`DataRequest`].
pub struct RequestView {
    pub key: KeyView,
    pub options: OptionsView,
}

/// Immutable identifier of one class of locale data: a category tag
/// (e.g. `"plurals"`), a sub-category tag (e.g. `"cardinal"`), and a
/// format version.
#[derive(Debug, PartialEq, Eq, Hash)]
pub struct ResourceKey {
    pub category: String,
    pub sub_category: String,
    pub version: u32,
}

impl View for ResourceKey {
    type V = KeyView;

    open spec fn view(&self) -> KeyView {
        KeyView {
            category: self.category@,
            sub_category: self.sub_category@,
            version: self.version,
        }
    }
}

impl DeepView for ResourceKey {
    type V = KeyView;

    open spec fn deep_view(&self) -> KeyView {
        self.view()
    }
}

impl Clone for ResourceKey {
    fn clone(&self) -> (res: Self)
        ensures
            res@ == self@,
    {
        ResourceKey {
            category: self.category.clone(),
            sub_category: self.sub_category.clone(),
            version: self.version,
        }
    }
}

/// Selects the concrete instance requested within a key's domain: a
/// language identifier, plus an optional extra variant dimension
/// (a calendar, a numbering system, ...).
#[derive(Debug, PartialEq, Eq, Hash)]
pub struct ResourceOptions {
    pub language: String,
    pub variant: Option<String>,
}

impl View for ResourceOptions {
    type V = OptionsView;

    open spec fn view(&self) -> OptionsView {
        OptionsView {
            language: self.language@,
            variant: match self.variant {
                Some(v) => Some(v@),
                None => None,
            },
        }
    }
}

impl DeepView for ResourceOptions {
    type V = OptionsView;

    open spec fn deep_view(&self) -> OptionsView {
        self.view()
    }
}

impl Clone for ResourceOptions {
    fn clone(&self) -> (res: Self)
        ensures
            res@ == self@,
    {
        ResourceOptions {
            language: self.language.clone(),
            variant: match &self.variant {
                Some(v) => Some(v.clone()),
                None => None,
            },
        }
    }
}

/// The unit of addressing for every load operation: which class of data,
/// and which instance of it.
#[derive(Debug, PartialEq, Eq, Hash)]
pub struct DataRequest {
    pub key: ResourceKey,
    pub options: ResourceOptions,
}

impl View for DataRequest {
    type V = RequestView;

    open spec fn view(&self) -> RequestView {
        RequestView { key: self.key@, options: self.options@ }
    }
}

impl Clone for DataRequest {
    fn clone(&self) -> (res: Self)
        ensures
            res@ == self@,
    {
        DataRequest { key: self.key.clone(), options: self.options.clone() }
    }
}

/// Decides structural equality of two keys, at the level of their views.
pub fn key_eq(a: &ResourceKey, b: &ResourceKey) -> (r: bool)
    ensures
        r == (a@ == b@),
{
    let r = a.category == b.category && a.sub_category == b.sub_category
        && a.version == b.version;
    proof {
        if r {
            assert(a@ == b@);
        }
    }
    r
}

/// Decides structural equality of two option sets, at the level of their
/// views.
pub fn options_eq(a: &ResourceOptions, b: &ResourceOptions) -> (r: bool)
    ensures
        r == (a@ == b@),
{
    let lang_eq = a.language == b.language;
    let var_eq = match (&a.variant, &b.variant) {
        (None, None) => true,
        (Some(x), Some(y)) => *x == *y,
        _ => false,
    };
    let r = lang_eq && var_eq;
    proof {
        if r {
            assert(a@ == b@);
        }
    }
    r
}

} // verus!
