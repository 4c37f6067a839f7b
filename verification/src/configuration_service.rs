//! The Session Store: single-slot storage for one session token. The store
//! owns the persisted record's format, a one-field JSON object, and treats a
//! missing or unreadable record as "no session yet" rather than an error.
//! Reading and writing the backing file is the caller's part; this module
//! decides what the bytes mean and what bytes to write.
use vstd::prelude::*;
use vstd::string::StringExecFns;

use crate::json_text::chars_to_string;
use crate::json_text::escape_seq;
use crate::json_text::escape_str;
use crate::json_text::lemma_parse_quoted_escape;
use crate::json_text::parse_quoted;
use crate::json_text::str_to_chars;

verus! {

broadcast use vstd::string::group_string_axioms;

/// The persisted record: one session token. An empty token means that no
/// session is stored.
pub struct Configuration {
    pub token: String,
}

/// The text that opens the persisted record, up to the token's opening quote.
pub open spec fn record_prefix() -> Seq<char> {
    "{\"token\":\""@
}

/// The persisted form of a token: a one-field JSON object.
pub open spec fn record_of(token: Seq<char>) -> Seq<char> {
    record_prefix() + escape_seq(token) + "\"}"@
}

/// The token a stored record holds, or `None` when the record is not a
/// well-formed token record.
pub open spec fn parse_record(s: Seq<char>) -> Option<Seq<char>> {
    if s.len() >= record_prefix().len() && s.subrange(0, record_prefix().len() as int)
        == record_prefix() {
        match parse_quoted(s.subrange(record_prefix().len() as int, s.len() as int)) {
            Some(p) => if p.1 == "}"@ {
                Some(p.0)
            } else {
                None
            },
            None => None,
        }
    } else {
        None
    }
}

/// The token that loading the given stored content yields: absence and
/// corruption both collapse to the empty token.
pub open spec fn loaded_token(stored: Option<String>) -> Seq<char> {
    match stored {
        Some(content) => match parse_record(content@) {
            Some(token) => token,
            None => Seq::empty(),
        },
        None => Seq::empty(),
    }
}

/// A record written for a token reads back as exactly that token: the codec
/// round-trips for every token, including tokens holding quotes or
/// backslashes.
pub proof fn lemma_record_round_trip(token: Seq<char>)
    ensures
        parse_record(record_of(token)) == Some(token),
{
    let s = record_of(token);
    reveal_strlit("{\"token\":\"");
    reveal_strlit("\"}");
    reveal_strlit("}");
    assert(record_prefix().len() == 10);
    assert(s.subrange(0, 10) =~= record_prefix());
    assert("\"}"@ =~= seq!['"'] + "}"@);
    assert(s.subrange(10, s.len() as int) =~= escape_seq(token) + seq!['"'] + "}"@);
    lemma_parse_quoted_escape(token, "}"@);
}

/// A missing record loads as the empty token, that is, as "no session".
pub proof fn lemma_absent_record_loads_empty()
    ensures
        loaded_token(None) == Seq::<char>::empty(),
{
}

/// A record that does not parse loads as the empty token, never as an error.
pub proof fn lemma_corrupt_record_loads_empty(content: String)
    requires
        parse_record(content@) is None,
    ensures
        loaded_token(Some(content)) == Seq::<char>::empty(),
{
}

impl Configuration {
    /// The configuration with no stored session.
    pub fn empty() -> (c: Configuration)
        ensures
            c.token@ == Seq::<char>::empty(),
    {
        Configuration { token: String::new() }
    }
}

/// Holds the in-memory copy of the persisted configuration. Constructed from
/// whatever the backing store yielded; hands the caller the exact text to
/// persist on a change.
pub struct ConfigurationService {
    pub configuration: Configuration,
}

impl ConfigurationService {
    /// Builds the store from the raw stored content, if any was readable. A
    /// missing or malformed record yields the empty configuration: loading
    /// never fails.
    pub fn new(stored: Option<String>) -> (s: ConfigurationService)
        ensures
            s.configuration.token@ == loaded_token(stored),
    {
        let configuration = match stored {
            Some(content) => parse_configuration(content.as_str()),
            None => Configuration::empty(),
        };
        ConfigurationService { configuration }
    }

    /// The stored token, or `None` when no session is stored.
    pub fn get_token(&self) -> (r: Option<&String>)
        ensures
            match r {
                Some(t) => self.configuration.token@.len() > 0 && t@ == self.configuration.token@,
                None => self.configuration.token@.len() == 0,
            },
    {
        let token = &self.configuration.token;
        if token.as_str().is_empty() {
            return None;
        }
        Some(token)
    }

    /// Replaces the stored token and returns a reference to the new value.
    /// The caller persists the record text (`serialized`) afterwards; a
    /// failure to persist costs only a fresh authentication on the next run.
    pub fn set_token(&mut self, token: &str) -> (r: &String)
        ensures
            final(self).configuration.token@ == token@,
            r@ == token@,
    {
        self.configuration.token = token.to_owned();
        &self.configuration.token
    }

    /// The record text to persist for the current configuration.
    pub fn serialized(&self) -> (r: String)
        ensures
            r@ == record_of(self.configuration.token@),
    {
        let escaped = escape_str(self.configuration.token.as_str());
        let r = String::from_str("{\"token\":\"").concat(escaped.as_str()).concat("\"}");
        proof {
            assert(r@ =~= record_of(self.configuration.token@));
        }
        r
    }
}

/// Reads a stored record; any deviation from the record format yields the
/// empty configuration.
fn parse_configuration(content: &str) -> (c: Configuration)
    ensures
        c.token@ == match parse_record(content@) {
            Some(token) => token,
            None => Seq::<char>::empty(),
        },
{
    match parse_record_exec(content) {
        Some(token) => Configuration { token },
        None => Configuration::empty(),
    }
}

/// Decides `parse_record` on real text.
#[verifier::loop_isolation(false)]
fn parse_record_exec(content: &str) -> (r: Option<String>)
    ensures
        match r {
            Some(t) => parse_record(content@) == Some(t@),
            None => parse_record(content@) is None,
        },
{
    let chars = str_to_chars(content);
    proof {
        reveal_strlit("{\"token\":\"");
        reveal_strlit("}");
    }
    let n = chars.len();
    if n < 10 {
        return None;
    }
    let prefix = str_to_chars("{\"token\":\"");
    let mut i: usize = 0;
    while i < 10
        invariant
            chars@ == content@,
            prefix@ == record_prefix(),
            record_prefix().len() == 10,
            n == chars@.len(),
            n >= 10,
            i <= 10,
            forall|k: int| 0 <= k < i ==> chars@[k] == record_prefix()[k],
        decreases 10 - i,
    {
        if chars[i] != prefix[i] {
            proof {
                assert(content@.subrange(0, 10)[i as int] != record_prefix()[i as int]);
            }
            return None;
        }
        i = i + 1;
    }
    proof {
        assert(content@.subrange(0, 10) =~= record_prefix());
    }
    // Unescape the quoted token body, tracking the spec parser on the rest.
    let ghost whole: Seq<char> = content@.subrange(10, content@.len() as int);
    let mut token_chars: Vec<char> = Vec::new();
    let mut j: usize = 10;
    proof {
        assert(forall|a: Seq<char>| #[trigger] (Seq::<char>::empty() + a) =~= a);
    }
    loop
        invariant
            chars@ == content@,
            n == chars@.len(),
            10 <= j <= n,
            whole == content@.subrange(10, content@.len() as int),
            parse_quoted(whole) == match parse_quoted(chars@.subrange(j as int, n as int)) {
                Some(p) => Some((token_chars@ + p.0, p.1)),
                None => None::<(Seq<char>, Seq<char>)>,
            },
        decreases n - j,
    {
        let ghost rest = chars@.subrange(j as int, n as int);
        if j == n {
            proof {
                assert(rest.len() == 0);
            }
            return None;
        }
        let c = chars[j];
        proof {
            assert(rest[0] == chars@[j as int]);
        }
        if c == '"' {
            proof {
                assert(rest.subrange(1, rest.len() as int) =~= chars@.subrange(
                    j + 1 as int,
                    n as int,
                ));
            }
            // Closing quote found: the remainder must be exactly "}".
            if n - j == 2 && chars[j + 1] == '}' {
                proof {
                    assert(chars@.subrange(j + 1 as int, n as int) =~= "}"@);
                    assert(token_chars@ + Seq::<char>::empty() =~= token_chars@);
                }
                let token = chars_to_string(&token_chars);
                return Some(token);
            } else {
                proof {
                    let tail = chars@.subrange(j + 1 as int, n as int);
                    assert(tail != "}"@) by {
                        if tail =~= "}"@ {
                            assert(tail.len() == 1);
                            assert(tail[0] == "}"@[0]);
                            assert(chars@[j + 1 as int] == tail[0]);
                            assert(chars@[j + 1 as int] == '}');
                        }
                    }
                }
                return None;
            }
        } else if c == '\\' {
            if j + 1 == n {
                proof {
                    assert(rest.len() == 1);
                }
                return None;
            }
            let e = chars[j + 1];
            proof {
                assert(rest[1] == chars@[j + 1 as int]);
            }
            if e == '"' || e == '\\' {
                proof {
                    assert(rest.subrange(2, rest.len() as int) =~= chars@.subrange(
                        j + 2 as int,
                        n as int,
                    ));
                    assert(token_chars@.push(rest[1]) =~= token_chars@ + seq![rest[1]]);
                    assert(forall|p0: Seq<char>| #![all_triggers] (token_chars@ + seq![rest[1]])
                        + p0 =~= token_chars@ + (seq![rest[1]] + p0));
                }
                token_chars.push(e);
                j = j + 2;
            } else {
                return None;
            }
        } else {
            proof {
                assert(rest.subrange(1, rest.len() as int) =~= chars@.subrange(
                    j + 1 as int,
                    n as int,
                ));
                assert(token_chars@.push(rest[0]) =~= token_chars@ + seq![rest[0]]);
                assert(forall|p0: Seq<char>| #![all_triggers] (token_chars@ + seq![rest[0]]) + p0
                    =~= token_chars@ + (seq![rest[0]] + p0));
            }
            token_chars.push(c);
            j = j + 1;
        }
    }
}

} // verus!
