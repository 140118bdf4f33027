use vstd::prelude::*;

use crate::text::{chars_of, starts_with, string_from_chars};

verus! {

/// Whether `c` may begin an event identifier: an underscore or an upper-case ASCII letter.
pub open spec fn is_identifier_start(c: char) -> bool {
    c == '_' || ('A' <= c && c <= 'Z')
}

/// Whether `c` may follow in an event identifier: also an ASCII digit.
pub open spec fn is_identifier_char(c: char) -> bool {
    is_identifier_start(c) || ('0' <= c && c <= '9')
}

/// Whether `s` is an event identifier: not empty, made of underscores, upper-case ASCII
/// letters and ASCII digits, and not starting with a digit.
pub open spec fn spec_is_valid_identifier(s: Seq<char>) -> bool {
    &&& s.len() > 0
    &&& is_identifier_start(s[0])
    &&& forall|i: int| 1 <= i < s.len() ==> is_identifier_char(#[trigger] s[i])
}

/// The plugin name a crate is published under: its name in upper case, with `-` written
/// as `_`.
pub open spec fn plugin_name_char(c: char) -> char {
    if c == '-' {
        '_'
    } else if 'a' <= c && c <= 'z' {
        ((c as u32) - 32) as char
    } else {
        c
    }
}

/// Whether `c` may appear in a crate name: an ASCII letter or digit, `-` or `_`.
pub open spec fn is_crate_name_char(c: char) -> bool {
    ||| ('a' <= c && c <= 'z')
    ||| ('A' <= c && c <= 'Z')
    ||| ('0' <= c && c <= '9')
    ||| c == '-'
    ||| c == '_'
}

/// In a plugin name, `-` is written `_`, `_` stays, a lower-case ASCII letter becomes
/// its upper-case letter, and upper-case letters and digits stay as they are.
pub proof fn lemma_plugin_name_char_cases(c: char)
    ensures
        c == '-' ==> plugin_name_char(c) == '_',
        c == '_' ==> plugin_name_char(c) == '_',
        ('a' <= c && c <= 'z') ==> 'A' <= plugin_name_char(c) && plugin_name_char(c) <= 'Z'
            && plugin_name_char(c) as u32 + 32 == c as u32,
        (('A' <= c && c <= 'Z') || ('0' <= c && c <= '9')) ==> plugin_name_char(c) == c,
{
    if 'a' <= c && c <= 'z' {
        let r = ((c as u32) - 32) as char;
        assert(65 <= (c as u32) - 32 <= 90);
        assert(r as u32 == (c as u32) - 32);
    }
}

/// The plugin name of a crate name made of ASCII letters, digits, `-` and `_`, and not
/// starting with a digit, is an event identifier, one character per character of the
/// crate name.
pub proof fn lemma_plugin_name_is_identifier(crate_name: Seq<char>)
    requires
        crate_name.len() > 0,
        !('0' <= crate_name[0] && crate_name[0] <= '9'),
        forall|i: int| 0 <= i < crate_name.len() ==> is_crate_name_char(#[trigger] crate_name[i]),
    ensures
        crate_name.map_values(|c: char| plugin_name_char(c)).len() == crate_name.len(),
        spec_is_valid_identifier(crate_name.map_values(|c: char| plugin_name_char(c))),
{
    let out = crate_name.map_values(|c: char| plugin_name_char(c));
    lemma_plugin_name_char_cases(crate_name[0]);
    assert(out[0] == plugin_name_char(crate_name[0]));
    assert forall|i: int| 1 <= i < out.len() implies is_identifier_char(#[trigger] out[i]) by {
        lemma_plugin_name_char_cases(crate_name[i]);
        assert(is_crate_name_char(crate_name[i]));
        assert(out[i] == plugin_name_char(crate_name[i]));
    }
}

/// A plugin as the host knows it: the name its events are sent under.
pub struct Plugin {
    name: String,
}

impl Plugin {
    pub closed spec fn name(&self) -> Seq<char> {
        self.name@
    }

    pub fn new(name: String) -> (r: Self)
        ensures
            r.name() == name@,
    {
        Plugin { name }
    }

    /// The name the plugin's own events are sent under.
    pub fn name_str(&self) -> (r: &str)
        ensures
            r@ == self.name(),
    {
        self.name.as_str()
    }

    /// Whether `identifier` can name an event: scripts see only such names.
    pub fn is_valid_identifier(identifier: &str) -> (r: bool)
        ensures
            r == spec_is_valid_identifier(identifier@),
    {
        let cs = chars_of(identifier);
        if cs.len() == 0 {
            return false;
        }
        let first = cs[0];
        if first != '_' && (first < 'A' || first > 'Z') {
            return false;
        }
        let mut i: usize = 1;
        while i < cs.len()
            invariant
                cs@ == identifier@,
                1 <= i <= cs@.len(),
                forall|j: int| 1 <= j < i ==> is_identifier_char(#[trigger] cs@[j]),
            decreases cs@.len() - i,
        {
            let c = cs[i];
            if c != '_' && (c < 'A' || c > 'Z') && (c < '0' || c > '9') {
                assert(!is_identifier_char(cs@[i as int]));
                return false;
            }
            i = i + 1;
        }
        true
    }

    /// The plugin name of the crate called `crate_name`.
    pub fn name_for_crate(crate_name: &str) -> (r: String)
        ensures
            r@ == crate_name@.map_values(|c: char| plugin_name_char(c)),
    {
        let cs = chars_of(crate_name);
        let mut out: Vec<char> = Vec::new();
        let mut i: usize = 0;
        while i < cs.len()
            invariant
                cs@ == crate_name@,
                i <= cs@.len(),
                out@ == cs@.take(i as int).map_values(|c: char| plugin_name_char(c)),
            decreases cs@.len() - i,
        {
            let c = cs[i];
            let mapped = if c == '-' {
                '_'
            } else if 'a' <= c && c <= 'z' {
                upper_ascii(c)
            } else {
                c
            };
            out.push(mapped);
            assert(cs@.take(i + 1).drop_last() =~= cs@.take(i as int));
            i = i + 1;
        }
        assert(cs@.take(cs@.len() as int) =~= cs@);
        string_from_chars(out.as_slice())
    }
}

/// The upper-case letter of the lower-case ASCII letter `c`.
fn upper_ascii(c: char) -> (r: char)
    requires
        'a' <= c && c <= 'z',
    ensures
        r == ((c as u32) - 32) as char,
{
    let code: u8 = (c as u32 - 32) as u8;
    code as char
}

/// A plugin's logger: it passes on the records of the plugin's own crate and of the host.
pub struct Logger {
    crate_name: String,
}

impl Logger {
    pub closed spec fn crate_name(&self) -> Seq<char> {
        self.crate_name@
    }

    pub fn new(crate_name: &str) -> (r: Self)
        ensures
            r.crate_name() == crate_name@,
    {
        Logger { crate_name: String::from_str(crate_name) }
    }

    /// Whether records of `target` are passed on: those whose target starts with the
    /// plugin's crate name or with `omni_led`.
    pub fn enabled(&self, target: &str) -> (r: bool)
        ensures
            r == (self.crate_name().is_prefix_of(target@) || "omni_led"@.is_prefix_of(target@)),
    {
        let own = starts_with(target, self.crate_name.as_str());
        let host = starts_with(target, "omni_led");
        proof {
            assert(self.crate_name().is_prefix_of(target@) == (self.crate_name().len()
                <= target@.len() && target@.take(self.crate_name().len() as int)
                == self.crate_name()));
            assert("omni_led"@.is_prefix_of(target@) == ("omni_led"@.len() <= target@.len()
                && target@.take("omni_led"@.len() as int) == "omni_led"@));
        }
        own || host
    }
}

} // verus!
