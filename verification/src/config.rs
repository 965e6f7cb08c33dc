//! Runtime configuration and its derivation from environment entries.
//!
//! The surrounding program collects the process environment (after any
//! dotenv-style files have been layered into it) into plain key-value
//! pairs; deriving the configuration from those pairs is pure and is
//! verified here.

use vstd::prelude::*;
use crate::error::ProxyError;
use crate::json::str_is;
use crate::text::chars_of;
use crate::text::string_from_chars;

verus! {

/// The proxy's immutable runtime configuration.
pub struct Config {
    pub port: u16,
    pub base_url: String,
    pub api_key: Option<String>,
    pub reasoning_model: Option<String>,
    pub completion_model: Option<String>,
    pub debug: bool,
    pub verbose: bool,
}

/// The first value under the given key, if any.
pub open spec fn spec_env_get(env: Seq<(Seq<char>, Seq<char>)>, key: Seq<char>) -> Option<
    Seq<char>,
>
    decreases env.len(),
{
    if env.len() == 0 {
        None
    } else if env[0].0 == key {
        Some(env[0].1)
    } else {
        spec_env_get(env.drop_first(), key)
    }
}

/// The views of a sequence of environment entries.
pub open spec fn env_view(env: Seq<(String, String)>) -> Seq<(Seq<char>, Seq<char>)> {
    env.map_values(|p: (String, String)| (p.0@, p.1@))
}

/// Looks a key up among environment entries, first match wins.
pub fn env_get<'a>(env: &'a Vec<(String, String)>, key: &str) -> (r: Option<&'a String>)
    ensures
        match r {
            Some(v) => spec_env_get(env_view(env@), key@) == Some(v@),
            None => spec_env_get(env_view(env@), key@) is None,
        },
{
    proof {
        assert(env_view(env@).skip(0) =~= env_view(env@));
    }
    for i in 0..env.len()
        invariant
            spec_env_get(env_view(env@), key@) == spec_env_get(
                env_view(env@).skip(i as int),
                key@,
            ),
    {
        proof {
            let ev = env_view(env@);
            assert(ev.skip(i as int).len() == ev.len() - i);
            assert(ev.skip(i as int)[0] == ev[i as int]);
        }
        if str_is(&env[i].0, key) {
            return Some(&env[i].1);
        }
        proof {
            let ev = env_view(env@);
            assert(ev.skip(i as int).drop_first() =~= ev.skip(i + 1));
        }
    }
    proof {
        assert(env_view(env@).skip(env@.len() as int).len() == 0);
    }
    None
}

/// Whether a character is a decimal digit.
pub open spec fn spec_is_digit(c: char) -> bool {
    48 <= (c as u32) && (c as u32) <= 57
}

/// The numeric value of a run of decimal digits.
pub open spec fn spec_digits_val(s: Seq<char>) -> nat
    decreases s.len(),
{
    if s.len() == 0 {
        0
    } else {
        (spec_digits_val(s.drop_last()) * 10 + (s.last() as u32 - 48)) as nat
    }
}

/// How a string parses as an unsigned sixteen-bit port number: an
/// optional leading `+`, then one or more decimal digits whose value
/// fits.
pub open spec fn spec_port_digits(s: Seq<char>) -> Seq<char> {
    if s.len() >= 1 && s[0] == '+' {
        s.drop_first()
    } else {
        s
    }
}

pub open spec fn spec_parse_u16(s: Seq<char>) -> Option<u16> {
    let digits = spec_port_digits(s);
    if digits.len() == 0 || exists|i: int| 0 <= i < digits.len() && !spec_is_digit(digits[i]) {
        None
    } else if spec_digits_val(digits) > 65535 {
        None
    } else {
        Some(spec_digits_val(digits) as u16)
    }
}

proof fn lemma_digits_val_take_monotone(s: Seq<char>, i: int, j: int)
    requires
        0 <= i <= j <= s.len(),
        forall|k: int| 0 <= k < s.len() ==> spec_is_digit(s[k]),
    ensures
        spec_digits_val(s.take(j)) >= spec_digits_val(s.take(i)),
    decreases j - i,
{
    if i < j {
        lemma_digits_val_take_monotone(s, i, j - 1);
        assert(s.take(j).drop_last() =~= s.take(j - 1));
        assert(spec_is_digit(s[j - 1]));
        assert(spec_digits_val(s.take(j)) == (spec_digits_val(s.take(j - 1)) * 10 + (
        s.take(j).last() as u32 - 48)) as nat);
    }
}

/// Parses a port number, as [`spec_parse_u16`] says.
pub fn parse_port(s: &str) -> (r: Option<u16>)
    ensures
        r == spec_parse_u16(s@),
{
    let cs = chars_of(s);
    let start: usize = if cs.len() >= 1 && cs[0] == '+' {
        1
    } else {
        0
    };
    let ghost digits = spec_port_digits(s@);
    proof {
        assert(digits =~= s@.skip(start as int));
    }
    if cs.len() == start {
        return None;
    }
    let mut acc: u32 = 0;
    let mut i: usize = start;
    while i < cs.len()
        invariant
            cs@ == s@,
            digits == spec_port_digits(s@),
            digits =~= s@.skip(start as int),
            start <= i <= cs.len(),
            acc <= 65535,
            forall|k: int| start <= k < i ==> spec_is_digit(s@[k]),
            acc == spec_digits_val(digits.take(i - start)),
        decreases cs@.len() - i,
    {
        let cu = cs[i] as u32;
        if cu < 48 || cu > 57 {
            proof {
                assert(digits[i - start] == s@[i as int]);
                assert(!spec_is_digit(digits[i - start]));
            }
            return None;
        }
        let d: u32 = cu - 48;
        let next: u32 = acc * 10 + d;
        proof {
            assert(digits.take(i - start + 1).drop_last() =~= digits.take(i - start));
            assert(digits.take(i - start + 1).last() == s@[i as int]);
            assert(spec_digits_val(digits.take(i - start + 1)) == next);
        }
        if next > 65535 {
            proof {
                if forall|k: int| 0 <= k < digits.len() ==> spec_is_digit(#[trigger] digits[k]) {
                    lemma_digits_val_take_monotone(digits, i - start + 1, digits.len() as int);
                    assert(digits.take(digits.len() as int) =~= digits);
                    assert(spec_digits_val(digits) > 65535);
                }
            }
            return None;
        }
        acc = next;
        i = i + 1;
    }
    proof {
        assert(digits.take(digits.len() as int) =~= digits);
        assert(forall|k: int|
            0 <= k < digits.len() ==> spec_is_digit(#[trigger] digits[k])) by {
            assert(forall|k: int|
                0 <= k < digits.len() ==> #[trigger] digits[k] == s@[start + k]);
        }
    }
    Some(acc as u16)
}

/// Whether a string spells the word `true` in any ASCII letter case.
pub open spec fn spec_is_true_word(s: Seq<char>) -> bool {
    s.len() == 4 && (s[0] == 't' || s[0] == 'T') && (s[1] == 'r' || s[1] == 'R') && (s[2] == 'u'
        || s[2] == 'U') && (s[3] == 'e' || s[3] == 'E')
}

/// Whether an environment value switches a flag on: the string `1`, or
/// the word `true` in any ASCII letter case.
pub open spec fn spec_truthy(s: Seq<char>) -> bool {
    s == "1"@ || spec_is_true_word(s)
}

/// Tests a flag value, as [`spec_truthy`] says.
pub fn is_truthy(s: &String) -> (r: bool)
    ensures
        r == spec_truthy(s@),
{
    if str_is(s, "1") {
        return true;
    }
    let cs = chars_of(s.as_str());
    cs.len() == 4 && (cs[0] == 't' || cs[0] == 'T') && (cs[1] == 'r' || cs[1] == 'R') && (cs[2]
        == 'u' || cs[2] == 'U') && (cs[3] == 'e' || cs[3] == 'E')
}

/// Trailing slashes removed.
pub open spec fn spec_trim_trailing_slashes(s: Seq<char>) -> Seq<char>
    decreases s.len(),
{
    if s.len() > 0 && s.last() == '/' {
        spec_trim_trailing_slashes(s.drop_last())
    } else {
        s
    }
}

impl Config {
    /// Derives the configuration from environment entries, which the
    /// caller hands over as plain key-value pairs in lookup order.
    ///
    /// The listening port comes from `PORT` where that parses as a port
    /// number, else it is 3000. The upstream base URL comes from
    /// `UPSTREAM_BASE_URL`, falling back to `ANTHROPIC_PROXY_BASE_URL`;
    /// without either the derivation fails. The bearer credential comes
    /// from `UPSTREAM_API_KEY` when that variable is present, an empty
    /// value counting as no credential and ending the lookup; only when
    /// it is absent does `OPENROUTER_API_KEY` stand in, again dropped
    /// when empty. The model overrides come from
    /// `REASONING_MODEL` and `COMPLETION_MODEL`. `DEBUG` and `VERBOSE`
    /// switch their flags on when truthy.
    pub fn from_env(env: &Vec<(String, String)>) -> (r: Result<Config, ProxyError>)
        ensures
            ({
                let ev = env_view(env@);
                let base = if spec_env_get(ev, "UPSTREAM_BASE_URL"@) is Some {
                    spec_env_get(ev, "UPSTREAM_BASE_URL"@)
                } else {
                    spec_env_get(ev, "ANTHROPIC_PROXY_BASE_URL"@)
                };
                match r {
                    Ok(c) => {
                        &&& base == Some(c.base_url@)
                        &&& c.port == (match spec_env_get(ev, "PORT"@) {
                            Some(p) => match spec_parse_u16(p) {
                                Some(v) => v,
                                None => 3000u16,
                            },
                            None => 3000u16,
                        })
                        &&& view_of_opt_string(c.api_key) == (match spec_env_get(
                            ev,
                            "UPSTREAM_API_KEY"@,
                        ) {
                            Some(k) => if k.len() > 0 {
                                Some(k)
                            } else {
                                None
                            },
                            None => spec_nonempty(spec_env_get(ev, "OPENROUTER_API_KEY"@)),
                        })
                        &&& view_of_opt_string(c.reasoning_model) == spec_env_get(
                            ev,
                            "REASONING_MODEL"@,
                        )
                        &&& view_of_opt_string(c.completion_model) == spec_env_get(
                            ev,
                            "COMPLETION_MODEL"@,
                        )
                        &&& c.debug == (match spec_env_get(ev, "DEBUG"@) {
                            Some(v) => spec_truthy(v),
                            None => false,
                        })
                        &&& c.verbose == (match spec_env_get(ev, "VERBOSE"@) {
                            Some(v) => spec_truthy(v),
                            None => false,
                        })
                    },
                    Err(e) => base is None && (e matches ProxyError::Config { message }
                        && message@ == "UPSTREAM_BASE_URL is required: set it to an endpoint that speaks the target format"@),
                }
            }),
    {
        let base_url: String = match env_get(env, "UPSTREAM_BASE_URL") {
            Some(v) => v.clone(),
            None => match env_get(env, "ANTHROPIC_PROXY_BASE_URL") {
                Some(v) => v.clone(),
                None => {
                    return Err(
                        ProxyError::Config {
                            message: (
                            "UPSTREAM_BASE_URL is required: set it to an endpoint that speaks the target format".to_owned()
                            ),
                        },
                    );
                },
            },
        };
        let port: u16 = match env_get(env, "PORT") {
            Some(p) => match parse_port(p.as_str()) {
                Some(v) => v,
                None => 3000,
            },
            None => 3000,
        };
        let api_key: Option<String> = match env_get(env, "UPSTREAM_API_KEY") {
            Some(k) => {
                if !k.as_str().is_empty() {
                    Some(k.clone())
                } else {
                    None
                }
            },
            None => nonempty_value(env_get(env, "OPENROUTER_API_KEY")),
        };
        let reasoning_model: Option<String> = match env_get(env, "REASONING_MODEL") {
            Some(v) => Some(v.clone()),
            None => None,
        };
        let completion_model: Option<String> = match env_get(env, "COMPLETION_MODEL") {
            Some(v) => Some(v.clone()),
            None => None,
        };
        let debug: bool = match env_get(env, "DEBUG") {
            Some(v) => is_truthy(v),
            None => false,
        };
        let verbose: bool = match env_get(env, "VERBOSE") {
            Some(v) => is_truthy(v),
            None => false,
        };
        Ok(Config { port, base_url, api_key, reasoning_model, completion_model, debug, verbose })
    }

    /// The upstream's chat-completions endpoint: the base URL with its
    /// trailing slashes removed and the well-known path appended.
    pub fn chat_completions_url(&self) -> (r: String)
        ensures
            r@ == spec_trim_trailing_slashes(self.base_url@) + "/v1/chat/completions"@,
    {
        let mut cs = chars_of(self.base_url.as_str());
        let mut n: usize = cs.len();
        proof {
            assert(cs@.take(cs@.len() as int) =~= cs@);
        }
        while n > 0 && cs[n - 1] == '/'
            invariant
                cs@ == self.base_url@,
                n <= cs@.len(),
                spec_trim_trailing_slashes(self.base_url@) == spec_trim_trailing_slashes(
                    cs@.take(n as int),
                ),
            decreases n,
        {
            proof {
                assert(cs@.take(n as int).drop_last() =~= cs@.take(n - 1));
            }
            n = n - 1;
        }
        cs.truncate(n);
        proof {
            assert(cs@ =~= self.base_url@.take(n as int));
            assert(spec_trim_trailing_slashes(cs@) == cs@);
        }
        let suffix = chars_of("/v1/chat/completions");
        let mut all = cs;
        all.append(&mut { suffix });
        string_from_chars(&all)
    }
}

/// The view of an optional string.
pub open spec fn view_of_opt_string(o: Option<String>) -> Option<Seq<char>> {
    match o {
        Some(s) => Some(s@),
        None => None,
    }
}

/// An optional value, kept only when non-empty.
pub open spec fn spec_nonempty(o: Option<Seq<char>>) -> Option<Seq<char>> {
    match o {
        Some(s) => if s.len() > 0 {
            Some(s)
        } else {
            None
        },
        None => None,
    }
}

/// Keeps an optional environment value only when non-empty.
fn nonempty_value(o: Option<&String>) -> (r: Option<String>)
    ensures
        view_of_opt_string(r) == spec_nonempty(
            match o {
                Some(s) => Some(s@),
                None => None,
            },
        ),
{
    match o {
        Some(s) => {
            if !s.as_str().is_empty() {
                Some(s.clone())
            } else {
                None
            }
        },
        None => None,
    }
}

} // verus!
