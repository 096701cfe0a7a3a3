//! The language of what the command line shows: English or Japanese.
//!
//! Help texts, the welcome guide, summaries and the command line's own
//! error notices come in both languages; error messages of the library
//! stay in English.

pub mod about;
pub mod help;
pub mod msg;

use vstd::prelude::*;
use crate::text::{chars_of, string_of};

verus! {

#[derive(Debug, Clone, Copy, PartialEq, Eq, Structural)]
pub enum Locale {
    En,
    Ja,
}

/// The Unicode lowercase form of a text.
pub uninterp spec fn unicode_lowercase(s: Seq<char>) -> Seq<char>;

/// Calls `str::to_lowercase`. The contract claims only that the result is a
/// function of the text.
#[verifier::external_body]
fn lowercase(s: &str) -> (r: String)
    ensures
        r@ == unicode_lowercase(s@),
{
    s.to_lowercase()
}

/// The locale a value names, ignoring case: `en` or `ja`.
pub open spec fn spec_parse_locale(value: Seq<char>) -> Option<Locale> {
    let l = unicode_lowercase(value);
    if l == "en"@ {
        Some(Locale::En)
    } else if l == "ja"@ {
        Some(Locale::Ja)
    } else {
        None
    }
}

/// Whether `s` starts with `prefix`.
pub open spec fn has_prefix(s: Seq<char>, prefix: Seq<char>) -> bool {
    prefix.len() <= s.len() && s.take(prefix.len() as int) == prefix
}

/// The locale given by `--lang=<value>` or `--lang <value>` in `args`, from
/// position `i` on: the first such option whose value names a locale.
pub open spec fn lang_from(args: Seq<Seq<char>>, i: int) -> Option<Locale>
    decreases args.len() - i,
{
    if i < 0 || i >= args.len() {
        None
    } else if has_prefix(args[i], "--lang="@) {
        match spec_parse_locale(args[i].skip(7)) {
            Some(l) => Some(l),
            None => lang_from(args, i + 1),
        }
    } else if args[i] == "--lang"@ {
        if i + 1 < args.len() {
            match spec_parse_locale(args[i + 1]) {
                Some(l) => Some(l),
                None => lang_from(args, i + 2),
            }
        } else {
            None
        }
    } else {
        lang_from(args, i + 1)
    }
}

fn after_prefix(s: &Vec<char>, prefix: &Vec<char>) -> (r: Option<Vec<char>>)
    ensures
        r is Some <==> has_prefix(s@, prefix@),
        r matches Some(rest) ==> rest@ == s@.skip(prefix@.len() as int),
{
    if prefix.len() > s.len() {
        return None;
    }
    let mut i: usize = 0;
    while i < prefix.len()
        invariant
            prefix@.len() <= s@.len(),
            i <= prefix@.len(),
            forall|j: int| 0 <= j < i ==> s@[j] == prefix@[j],
        decreases prefix@.len() - i,
    {
        if s[i] != prefix[i] {
            assert(s@.take(prefix@.len() as int)[i as int] != prefix@[i as int]);
            return None;
        }
        i = i + 1;
    }
    assert(s@.take(prefix@.len() as int) =~= prefix@);
    let mut rest: Vec<char> = Vec::new();
    let mut k: usize = prefix.len();
    while k < s.len()
        invariant
            prefix@.len() <= k <= s@.len(),
            rest@ == s@.subrange(prefix@.len() as int, k as int),
        decreases s@.len() - k,
    {
        rest.push(s[k]);
        k = k + 1;
        assert(rest@ =~= s@.subrange(prefix@.len() as int, k as int));
    }
    assert(rest@ =~= s@.skip(prefix@.len() as int));
    Some(rest)
}

/// The locale chosen by the environment: the first of the given variables
/// that is set and not empty decides, Japanese when its lowercase form
/// starts with `ja`, English otherwise; English when none is set.
pub open spec fn env_locale(values: Seq<Option<Seq<char>>>) -> Locale
    decreases values.len(),
{
    if values.len() == 0 {
        Locale::En
    } else {
        match values[0] {
            Some(v) => if v.len() == 0 {
                env_locale(values.drop_first())
            } else if has_prefix(unicode_lowercase(v), "ja"@) {
                Locale::Ja
            } else {
                Locale::En
            },
            None => env_locale(values.drop_first()),
        }
    }
}

impl Locale {
    /// The locale of the environment (see [`env_locale`]), given the values
    /// of `LC_ALL`, `LC_MESSAGES` and `LANG`, in that order (`None` for a
    /// variable that is not set).
    pub fn detect(values: &Vec<Option<String>>) -> (r: Locale)
        ensures
            r == env_locale(crate::text::opt_views(values@)),
    {
        let ghost vs = crate::text::opt_views(values@);
        let ja = chars_of("ja");
        let mut i: usize = 0;
        assert(vs.skip(0) =~= vs);
        while i < values.len()
            invariant
                i <= values@.len(),
                vs == crate::text::opt_views(values@),
                ja@ == "ja"@,
                env_locale(vs) == env_locale(vs.skip(i as int)),
            decreases values@.len() - i,
        {
            assert(vs.skip(i as int)[0] == vs[i as int]);
            assert(vs.skip(i as int).drop_first() =~= vs.skip(i + 1));
            match &values[i] {
                Some(v) => {
                    if chars_of(v.as_str()).len() > 0 {
                        let l = chars_of(lowercase(v.as_str()).as_str());
                        return match after_prefix(&l, &ja) {
                            Some(_) => Locale::Ja,
                            None => Locale::En,
                        };
                    }
                },
                None => {},
            }
            i = i + 1;
        }
        assert(vs.skip(i as int) =~= Seq::<Option<Seq<char>>>::empty());
        Locale::En
    }

    /// The locale `value` names, ignoring case (see [`spec_parse_locale`]).
    pub fn parse(value: &str) -> (r: Option<Locale>)
        ensures
            r == spec_parse_locale(value@),
    {
        let l = chars_of(lowercase(value).as_str());
        if crate::text::chars_eq(&l, &chars_of("en")) {
            Some(Locale::En)
        } else if crate::text::chars_eq(&l, &chars_of("ja")) {
            Some(Locale::Ja)
        } else {
            None
        }
    }

    /// The locale of a `--lang` option among command-line arguments, found
    /// before the arguments are parsed in full (see [`lang_from`]).
    pub fn from_args(args: Vec<String>) -> (r: Option<Locale>)
        ensures
            r == lang_from(crate::text::string_views(args@), 0),
    {
        let ghost av = crate::text::string_views(args@);
        let key = chars_of("--lang=");
        let flag = chars_of("--lang");
        let mut i: usize = 0;
        while i < args.len()
            invariant
                i <= args@.len(),
                av == crate::text::string_views(args@),
                key@ == "--lang="@,
                flag@ == "--lang"@,
                lang_from(av, 0) == lang_from(av, i as int),
            decreases args@.len() - i,
        {
            let arg = chars_of(args[i].as_str());
            assert(arg@ == av[i as int]);
            proof {
                reveal_strlit("--lang=");
            }
            match after_prefix(&arg, &key) {
                Some(rest) => {
                    let value = string_of(&rest);
                    match Locale::parse(value.as_str()) {
                        Some(l) => return Some(l),
                        None => {},
                    }
                    i = i + 1;
                },
                None => {
                    if crate::text::chars_eq(&arg, &flag) {
                        if i + 1 < args.len() {
                            match Locale::parse(args[i + 1].as_str()) {
                                Some(l) => {
                                    assert(args@[i + 1]@ == av[i + 1]);
                                    return Some(l);
                                },
                                None => {},
                            }
                            assert(args@[i + 1]@ == av[i + 1]);
                            i = i + 2;
                        } else {
                            return None;
                        }
                    } else {
                        i = i + 1;
                    }
                },
            }
        }
        None
    }
}

} // verus!
