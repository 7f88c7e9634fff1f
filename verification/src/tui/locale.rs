//! The language of the terminal client: the locale negotiated from the one asked for,
//! the system's and English, the message files it takes, and the clean-up of a
//! formatted message.

use vstd::prelude::*;
use crate::tui::text::push_char;

verus! {

/// The locales the client has messages for, in order of preference.
pub open spec fn available_locales() -> Seq<Seq<char>> {
    seq!["en"@, "zh-CN"@]
}

/// The locale shown when nothing else fits.
pub open spec fn default_locale() -> Seq<char> {
    "en"@
}

/// What `fluent_langneg::negotiate_languages` returns with the Filtering strategy and no
/// default locale, for the language ids written in `requested` and `available` (a text
/// that is no language id is left out, as `convert_vec_str_to_langids_lossy` does), each
/// locale of the result written as its text.
pub uninterp spec fn filtered_locales(requested: Seq<Seq<char>>, available: Seq<Seq<char>>) -> Seq<Seq<char>>;

/// The available locales that match the requested ones, by `negotiate_languages` of
/// `fluent_langneg` (Filtering strategy, no default), written as texts. The result is
/// named, not stated: the matching is the crate's.
#[verifier::external_body]
fn negotiate_filtering(requested: &Vec<String>, available: &Vec<String>) -> (r: Vec<String>)
    ensures
        r@.map_values(|s: String| s@) == filtered_locales(
            requested@.map_values(|s: String| s@),
            available@.map_values(|s: String| s@),
        ),
{
    let req = fluent_langneg::convert_vec_str_to_langids_lossy(requested);
    let avail = fluent_langneg::convert_vec_str_to_langids_lossy(available);
    let found = fluent_langneg::negotiate_languages(
        &req,
        &avail,
        None,
        fluent_langneg::NegotiationStrategy::Filtering,
    );
    found.iter().map(|l| l.to_string()).collect()
}

/// The message files of a language.
#[derive(Debug, Clone, Copy, PartialEq, Eq, Structural)]
pub enum Messages {
    English,
    SimplifiedChinese,
}

/// The client's language: its locale, the messages it shows, and whether the English
/// messages fill in those the others lack.
#[derive(Debug, Clone)]
pub struct LocaleChoice {
    pub locale: String,
    pub messages: Messages,
    pub english_fallback: bool,
}

/// The best of the negotiated locales: the first, else the default.
pub open spec fn best_locale(found: Seq<Seq<char>>) -> Seq<char> {
    if found.len() > 0 {
        found[0]
    } else {
        default_locale()
    }
}

/// The language of the locale `best`.
pub open spec fn choice_is(c: LocaleChoice, best: Seq<char>) -> bool {
    &&& c.locale@ == best
    &&& c.messages == (if best == "zh-CN"@ {
        Messages::SimplifiedChinese
    } else {
        Messages::English
    })
    &&& c.english_fallback == (best != "en"@)
}

/// The language of the negotiated locales `found`: the first of them, else English; the
/// Chinese messages for "zh-CN", the English ones otherwise, with English filling in
/// for any locale but English.
pub fn locale_from(found: &Vec<String>) -> (c: LocaleChoice)
    ensures
        choice_is(c, best_locale(found@.map_values(|s: String| s@))),
{
    let locale = if found.len() > 0 {
        found[0].clone()
    } else {
        String::from_str("en")
    };
    let zh = String::from_str("zh-CN");
    let en = String::from_str("en");
    let messages = if locale == zh {
        Messages::SimplifiedChinese
    } else {
        Messages::English
    };
    let english_fallback = !(locale == en);
    LocaleChoice { locale, messages, english_fallback }
}

/// The text of an optional text.
pub open spec fn opt_text(o: Option<&str>) -> Option<Seq<char>> {
    match o {
        Some(s) => Some(s@),
        None => None,
    }
}

/// The locales asked for, most wanted first: the one requested, the system's, English.
pub open spec fn requested_locales(requested: Option<Seq<char>>, system: Option<Seq<char>>) -> Seq<Seq<char>> {
    let a = match requested {
        Some(r) => seq![r],
        None => seq![],
    };
    let b = match system {
        Some(s) => seq![s],
        None => seq![],
    };
    a + b + seq![default_locale()]
}

/// The client's language, negotiated from the requested locale, the system's and English
/// against the locales that have messages (a text that is no language id is passed
/// over by the negotiation).
pub fn choose_locale(requested: Option<&str>, system: Option<&str>) -> (c: LocaleChoice)
    ensures
        choice_is(
            c,
            best_locale(
                filtered_locales(requested_locales(opt_text(requested), opt_text(system)), available_locales()),
            ),
        ),
{
    let mut asked: Vec<String> = Vec::new();
    if let Some(r) = requested {
        asked.push(String::from_str(r));
    }
    if let Some(s) = system {
        asked.push(String::from_str(s));
    }
    asked.push(String::from_str("en"));
    let mut available: Vec<String> = Vec::new();
    available.push(String::from_str("en"));
    available.push(String::from_str("zh-CN"));
    proof {
        assert(asked@.map_values(|s: String| s@) =~= requested_locales(opt_text(requested), opt_text(system)));
        assert(available@.map_values(|s: String| s@) =~= available_locales());
    }
    let found = negotiate_filtering(&asked, &available);
    locale_from(&found)
}

/// The text without the invisible marks U+2068 and U+2069 that Fluent puts round the
/// values it fills in.
pub open spec fn without_isolation_marks(s: Seq<char>) -> Seq<char>
    decreases s.len(),
{
    if s.len() == 0 {
        s
    } else if s.last() == '\u{2068}' || s.last() == '\u{2069}' {
        without_isolation_marks(s.drop_last())
    } else {
        without_isolation_marks(s.drop_last()).push(s.last())
    }
}

/// A formatted message without Fluent's invisible isolation marks, which upset terminals.
pub fn strip_isolation_marks(s: &str) -> (r: String)
    ensures
        r@ == without_isolation_marks(s@),
{
    let n = s.unicode_len();
    let mut r = String::new();
    let mut i: usize = 0;
    while i < n
        invariant
            n == s@.len(),
            i <= n,
            r@ == without_isolation_marks(s@.subrange(0, i as int)),
        decreases n - i,
    {
        let c = s.get_char(i);
        assert(s@.subrange(0, i + 1).drop_last() =~= s@.subrange(0, i as int));
        if c != '\u{2068}' && c != '\u{2069}' {
            push_char(&mut r, c);
        }
        i = i + 1;
    }
    assert(s@.subrange(0, n as int) =~= s@);
    r
}

} // verus!
