//! Translation lookup over an explicitly passed translation context.
//!
//! The context holds the chosen locale and the loaded translation tables;
//! the callers load the tables and carry the context. Lookup falls back to
//! the English table when the chosen locale lacks a key, and to the key
//! itself when no table has it.

use vstd::prelude::*;
use crate::text::{chars_of, eq_ci_seq, push_range, replace_all, spec_replace_all, str_eq,
    str_eq_ci, string_of_chars};

verus! {

/// The locales the tool ships translations for.
#[derive(Clone, Copy, Debug, PartialEq, Eq, Structural)]
pub enum SupportedLocale {
    EnUS,
    ZhCN,
}

/// The locale a user-given tag denotes, compared up to ASCII case.
pub open spec fn spec_locale_from(s: Seq<char>) -> Option<SupportedLocale> {
    if eq_ci_seq(s, "en"@) || eq_ci_seq(s, "en-us"@) || eq_ci_seq(s, "en_us"@) || eq_ci_seq(
        s,
        "english"@,
    ) {
        Some(SupportedLocale::EnUS)
    } else if eq_ci_seq(s, "zh"@) || eq_ci_seq(s, "zh-cn"@) || eq_ci_seq(s, "zh_cn"@) || eq_ci_seq(
        s,
        "chinese"@,
    ) {
        Some(SupportedLocale::ZhCN)
    } else {
        None
    }
}

impl SupportedLocale {
    /// The canonical tag of the locale.
    pub fn as_str(&self) -> (r: &'static str)
        ensures
            *self == SupportedLocale::EnUS ==> r@ == "en-US"@,
            *self == SupportedLocale::ZhCN ==> r@ == "zh-CN"@,
    {
        match self {
            SupportedLocale::EnUS => "en-US",
            SupportedLocale::ZhCN => "zh-CN",
        }
    }

    /// Parse a user-given locale tag.
    pub fn from_str(s: &str) -> (r: Option<Self>)
        ensures
            r == spec_locale_from(s@),
    {
        let sc = chars_of(s);
        let en = chars_of("en");
        let en_dash = chars_of("en-us");
        let en_under = chars_of("en_us");
        let english = chars_of("english");
        let zh = chars_of("zh");
        let zh_dash = chars_of("zh-cn");
        let zh_under = chars_of("zh_cn");
        let chinese = chars_of("chinese");
        if str_eq_ci(&sc, &en) || str_eq_ci(&sc, &en_dash) || str_eq_ci(&sc, &en_under)
            || str_eq_ci(&sc, &english) {
            Some(SupportedLocale::EnUS)
        } else if str_eq_ci(&sc, &zh) || str_eq_ci(&sc, &zh_dash) || str_eq_ci(&sc, &zh_under)
            || str_eq_ci(&sc, &chinese) {
            Some(SupportedLocale::ZhCN)
        } else {
            None
        }
    }
}

/// The loaded translations of one locale: key and text pairs, flattened
/// from the translation file, first match winning.
pub struct LocaleTable {
    pub locale: SupportedLocale,
    pub entries: Vec<(String, String)>,
}

/// The translation context: the chosen locale and the loaded tables.
pub struct Translations {
    pub current: SupportedLocale,
    pub tables: Vec<LocaleTable>,
}

/// The text of the first entry, from `i` on, whose key is exactly `key`.
pub open spec fn entry_lookup_from(es: Seq<(String, String)>, key: Seq<char>, i: int) -> Option<
    Seq<char>,
>
    decreases es.len() - i,
{
    if i < 0 || i >= es.len() {
        None
    } else if es[i].0@ == key {
        Some(es[i].1@)
    } else {
        entry_lookup_from(es, key, i + 1)
    }
}

pub proof fn lemma_entry_lookup_skip(es: Seq<(String, String)>, key: Seq<char>, i: int, m: int)
    requires
        0 <= i <= m,
        forall|j: int| i <= j < m ==> es[j].0@ != key,
    ensures
        entry_lookup_from(es, key, i) == entry_lookup_from(es, key, m),
    decreases m - i,
{
    if i < m {
        if i >= es.len() {
        } else {
            lemma_entry_lookup_skip(es, key, i + 1, m);
        }
    }
}

/// The entries of the first table, from `i` on, for locale `loc`.
pub open spec fn table_lookup_from(ts: Seq<LocaleTable>, loc: SupportedLocale, i: int) -> Option<
    Seq<(String, String)>,
>
    decreases ts.len() - i,
{
    if i < 0 || i >= ts.len() {
        None
    } else if ts[i].locale == loc {
        Some(ts[i].entries@)
    } else {
        table_lookup_from(ts, loc, i + 1)
    }
}

pub proof fn lemma_table_lookup_skip(ts: Seq<LocaleTable>, loc: SupportedLocale, i: int, m: int)
    requires
        0 <= i <= m,
        forall|j: int| i <= j < m ==> ts[j].locale != loc,
    ensures
        table_lookup_from(ts, loc, i) == table_lookup_from(ts, loc, m),
    decreases m - i,
{
    if i < m {
        if i >= ts.len() {
        } else {
            lemma_table_lookup_skip(ts, loc, i + 1, m);
        }
    }
}

/// The translation a context gives a key in one locale.
pub open spec fn spec_locale_translation(
    ts: Seq<LocaleTable>,
    loc: SupportedLocale,
    key: Seq<char>,
) -> Option<Seq<char>> {
    match table_lookup_from(ts, loc, 0) {
        Some(es) => entry_lookup_from(es, key, 0),
        None => None,
    }
}

/// The translation a context gives a key: the chosen locale's table first,
/// then the English table as fallback.
pub open spec fn spec_get_translation(ctx: Translations, key: Seq<char>) -> Option<Seq<char>> {
    if spec_locale_translation(ctx.tables@, ctx.current, key) is Some {
        spec_locale_translation(ctx.tables@, ctx.current, key)
    } else if ctx.current != SupportedLocale::EnUS {
        spec_locale_translation(ctx.tables@, SupportedLocale::EnUS, key)
    } else {
        None
    }
}

/// The entries of the context's table for `loc`, if one is loaded.
fn find_table<'t>(ts: &'t Vec<LocaleTable>, loc: SupportedLocale) -> (r: Option<
    &'t Vec<(String, String)>,
>)
    ensures
        match r {
            Some(es) => table_lookup_from(ts@, loc, 0) == Some(es@),
            None => table_lookup_from(ts@, loc, 0) is None,
        },
{
    let mut i: usize = 0;
    while i < ts.len()
        invariant
            i <= ts.len(),
            forall|j: int| 0 <= j < i ==> ts@[j].locale != loc,
        decreases ts.len() - i,
    {
        if ts[i].locale == loc {
            proof {
                lemma_table_lookup_skip(ts@, loc, 0, i as int);
            }
            return Some(&ts[i].entries);
        }
        i = i + 1;
    }
    proof {
        lemma_table_lookup_skip(ts@, loc, 0, i as int);
    }
    None
}

/// The text of the first entry with exactly the given key.
fn find_entry(es: &Vec<(String, String)>, key: &Vec<char>) -> (r: Option<String>)
    ensures
        match r {
            Some(v) => entry_lookup_from(es@, key@, 0) == Some(v@),
            None => entry_lookup_from(es@, key@, 0) is None,
        },
{
    let mut i: usize = 0;
    while i < es.len()
        invariant
            i <= es.len(),
            forall|j: int| 0 <= j < i ==> es@[j].0@ != key@,
        decreases es.len() - i,
    {
        let k = chars_of(es[i].0.as_str());
        if str_eq(&k, key) {
            proof {
                lemma_entry_lookup_skip(es@, key@, 0, i as int);
            }
            return Some(es[i].1.clone());
        }
        i = i + 1;
    }
    proof {
        lemma_entry_lookup_skip(es@, key@, 0, i as int);
    }
    None
}

/// The translation of a key, when the context has one: the chosen locale's
/// table first, then the English table.
pub fn get_translation(ctx: &Translations, key: &str) -> (r: Option<String>)
    ensures
        match r {
            Some(v) => spec_get_translation(*ctx, key@) == Some(v@),
            None => spec_get_translation(*ctx, key@) is None,
        },
{
    let kc = chars_of(key);
    match find_table(&ctx.tables, ctx.current) {
        Some(es) => {
            match find_entry(es, &kc) {
                Some(v) => {
                    return Some(v);
                },
                None => {},
            }
        },
        None => {},
    }
    if !matches!(ctx.current, SupportedLocale::EnUS) {
        match find_table(&ctx.tables, SupportedLocale::EnUS) {
            Some(es) => {
                return find_entry(es, &kc);
            },
            None => {
                return None;
            },
        }
    }
    None
}

/// What `translate` returns: the translation, or the key itself when the
/// context has none.
pub open spec fn spec_translate(ctx: Translations, key: Seq<char>) -> Seq<char> {
    match spec_get_translation(ctx, key) {
        Some(v) => v,
        None => key,
    }
}

/// Translate a key, falling back to the key itself.
pub fn translate(ctx: &Translations, key: &str) -> (r: String)
    ensures
        r@ == spec_translate(*ctx, key@),
{
    match get_translation(ctx, key) {
        Some(v) => v,
        None => {
            let kc = chars_of(key);
            string_of_chars(&kc)
        },
    }
}

/// The placeholder that an argument name stands behind in a translation
/// text.
pub open spec fn spec_placeholder(name: Seq<char>) -> Seq<char> {
    "%{"@ + name + "}"@
}

/// The message with the placeholders of the arguments from `i` on replaced
/// by their texts, in order.
pub open spec fn spec_apply_args(msg: Seq<char>, args: Seq<(String, String)>, i: int) -> Seq<char>
    decreases args.len() - i,
{
    if i < 0 || i >= args.len() {
        msg
    } else {
        spec_apply_args(
            spec_replace_all(msg, spec_placeholder(args[i].0@), args[i].1@),
            args,
            i + 1,
        )
    }
}

/// Translate a key and substitute the named arguments into the result.
pub fn translate_args(ctx: &Translations, key: &str, args: &Vec<(String, String)>) -> (r: String)
    ensures
        r@ == spec_apply_args(spec_translate(*ctx, key@), args@, 0),
{
    let base = translate(ctx, key);
    let mut msg = chars_of(base.as_str());
    let mut i: usize = 0;
    while i < args.len()
        invariant
            i <= args.len(),
            spec_apply_args(msg@, args@, i as int) == spec_apply_args(
                spec_translate(*ctx, key@),
                args@,
                0,
            ),
        decreases args.len() - i,
    {
        let mut ph: Vec<char> = Vec::new();
        ph.push('%');
        ph.push('{');
        let name = chars_of(args[i].0.as_str());
        push_range(&mut ph, &name, 0, name.len());
        ph.push('}');
        proof {
            reveal_strlit("%{");
            reveal_strlit("}");
            assert(name@.subrange(0, name@.len() as int) =~= name@);
            assert(ph@ =~= spec_placeholder(args@[i as int].0@));
        }
        let value = chars_of(args[i].1.as_str());
        msg = replace_all(&msg, &ph, &value);
        i = i + 1;
    }
    string_of_chars(&msg)
}

/// The chosen locale of the context.
pub fn get_current_locale(ctx: &Translations) -> (r: SupportedLocale)
    ensures
        r == ctx.current,
{
    ctx.current
}

/// The display name of the chosen locale.
pub fn get_current_locale_name(ctx: &Translations) -> (r: &'static str)
    ensures
        ctx.current == SupportedLocale::EnUS ==> r@ == "English"@,
        ctx.current == SupportedLocale::ZhCN ==> r@ == "\u{7b80}\u{4f53}\u{4e2d}\u{6587}"@,
{
    match ctx.current {
        SupportedLocale::EnUS => "English",
        SupportedLocale::ZhCN => "\u{7b80}\u{4f53}\u{4e2d}\u{6587}",
    }
}

/// The locales the tool offers, as tag and display name pairs.
pub fn list_supported_locales() -> (r: Vec<(&'static str, &'static str)>)
    ensures
        r@.len() == 2,
        r@[0].0@ == "en"@ && r@[0].1@ == "English"@,
        r@[1].0@ == "zh"@ && r@[1].1@ == "\u{7b80}\u{4f53}\u{4e2d}\u{6587}"@,
{
    let mut out: Vec<(&'static str, &'static str)> = Vec::new();
    out.push(("en", "English"));
    out.push(("zh", "\u{7b80}\u{4f53}\u{4e2d}\u{6587}"));
    out
}

} // verus!
