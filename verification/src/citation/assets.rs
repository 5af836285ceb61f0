//! The ids of the bundled CSL styles and locales.

use vstd::prelude::*;

use crate::text::str_eq;

verus! {

/// The views of a list of string slices.
pub open spec fn slices_view(v: Seq<&str>) -> Seq<Seq<char>> {
    v.map_values(|s: &str| s@)
}

/// The bundled style ids, in order.
pub open spec fn bundled_styles() -> Seq<Seq<char>> {
    seq![
        "apa"@,
        "ieee"@,
        "mla"@,
        "ama"@,
        "chicago-notes-bibliography"@,
        "harvard"@,
        "nature"@,
        "science"@,
        "cell"@,
        "plos"@,
    ]
}

/// The bundled locale ids, in order.
pub open spec fn bundled_locales() -> Seq<Seq<char>> {
    seq!["en-US"@, "en-GB"@, "es-ES"@, "pt-BR"@, "de-DE"@, "fr-FR"@, "zh-CN"@, "ru-RU"@]
}

/// The ids of the bundled styles.
pub fn bundled_style_ids() -> (r: Vec<&'static str>)
    ensures
        slices_view(r@) == bundled_styles(),
{
    let mut v: Vec<&'static str> = Vec::new();
    v.push("apa");
    v.push("ieee");
    v.push("mla");
    v.push("ama");
    v.push("chicago-notes-bibliography");
    v.push("harvard");
    v.push("nature");
    v.push("science");
    v.push("cell");
    v.push("plos");
    assert(slices_view(v@) =~= bundled_styles());
    v
}

/// The ids of the bundled locales.
pub fn bundled_locale_ids() -> (r: Vec<&'static str>)
    ensures
        slices_view(r@) == bundled_locales(),
{
    let mut v: Vec<&'static str> = Vec::new();
    v.push("en-US");
    v.push("en-GB");
    v.push("es-ES");
    v.push("pt-BR");
    v.push("de-DE");
    v.push("fr-FR");
    v.push("zh-CN");
    v.push("ru-RU");
    assert(slices_view(v@) =~= bundled_locales());
    v
}

/// `true` iff `id` is one of `ids`.
fn listed(ids: &Vec<&'static str>, id: &str) -> (r: bool)
    ensures
        r == slices_view(ids@).contains(id@),
{
    let mut i: usize = 0;
    while i < ids.len()
        invariant
            i <= ids@.len(),
            forall|j: int| 0 <= j < i ==> slices_view(ids@)[j] != id@,
        decreases ids@.len() - i,
    {
        if str_eq(ids[i], id) {
            assert(slices_view(ids@)[i as int] == id@);
            return true;
        }
        i += 1;
    }
    false
}

/// `true` iff `id` names a bundled style.
pub fn is_bundled_style(id: &str) -> (r: bool)
    ensures
        r == bundled_styles().contains(id@),
{
    let ids = bundled_style_ids();
    listed(&ids, id)
}

/// `true` iff `lang` names a bundled locale.
pub fn is_bundled_locale(lang: &str) -> (r: bool)
    ensures
        r == bundled_locales().contains(lang@),
{
    let ids = bundled_locale_ids();
    listed(&ids, lang)
}

} // verus!
