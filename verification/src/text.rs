//! Characters and strings: the character classes of the language, and the
//! conversions between `String`, `Vec<char>` and `Seq<char>` that the rest of
//! the crate builds on.
use vstd::prelude::*;

verus! {

/// `String::push` of the standard library appends one character to the end of
/// the string and changes nothing else. Verus takes this on trust.
pub assume_specification[ std::string::String::push ](s: &mut std::string::String, c: char)
    ensures
        final(s)@ == old(s)@.push(c),
;

/// The classes of characters that the scanner reads in runs.
#[derive(Debug, Eq, PartialEq, Clone, Copy, Structural)]
pub enum CharClass {
    /// Space, tab, line feed and carriage return.
    Whitespace,
    /// The ten ASCII digits.
    Digit,
    /// The ASCII letters and the underscore.
    Letter,
}

pub open spec fn is_whitespace(c: char) -> bool {
    c == ' ' || c == '\t' || c == '\n' || c == '\r'
}

pub open spec fn is_digit(c: char) -> bool {
    '0' <= c && c <= '9'
}

pub open spec fn spec_is_letter(c: char) -> bool {
    ('a' <= c && c <= 'z') || ('A' <= c && c <= 'Z') || c == '_'
}

impl CharClass {
    pub open spec fn spec_contains(self, c: char) -> bool {
        match self {
            CharClass::Whitespace => is_whitespace(c),
            CharClass::Digit => is_digit(c),
            CharClass::Letter => spec_is_letter(c),
        }
    }

    #[verifier::when_used_as_spec(spec_contains)]
    pub fn contains(self, c: char) -> (b: bool)
        ensures
            b == self.spec_contains(c),
    {
        match self {
            CharClass::Whitespace => c == ' ' || c == '\t' || c == '\n' || c == '\r',
            CharClass::Digit => '0' <= c && c <= '9',
            CharClass::Letter => ('a' <= c && c <= 'z') || ('A' <= c && c <= 'Z') || c == '_',
        }
    }
}

/// The number of characters at the front of `s` that belong to `class`: the
/// length of the longest run of the class that `s` starts with.
pub open spec fn run_length(s: Seq<char>, class: CharClass) -> nat
    decreases s.len(),
{
    if s.len() > 0 && class.contains(s[0]) {
        1 + run_length(s.drop_first(), class)
    } else {
        0
    }
}

/// A run is as long as `n` exactly when the first `n` characters belong to the
/// class and the one after them, if there is one, does not.
pub proof fn lemma_run_length(s: Seq<char>, class: CharClass, n: nat)
    requires
        n <= s.len(),
        forall|i: int| 0 <= i < n ==> class.contains(#[trigger] s[i]),
        n < s.len() ==> !class.contains(s[n as int]),
    ensures
        run_length(s, class) == n,
    decreases n,
{
    if n > 0 {
        let t = s.drop_first();
        assert forall|i: int| 0 <= i < n - 1 implies class.contains(#[trigger] t[i]) by {
            assert(t[i] == s[i + 1]);
        }
        lemma_run_length(t, class, (n - 1) as nat);
    }
}

/// What `run_length` measures: a prefix inside `s`, all of the class, that
/// cannot be extended.
pub proof fn lemma_run_length_is_run(s: Seq<char>, class: CharClass)
    ensures
        run_length(s, class) <= s.len(),
        forall|i: int| 0 <= i < run_length(s, class) ==> class.contains(#[trigger] s[i]),
        run_length(s, class) < s.len() ==> !class.contains(s[run_length(s, class) as int]),
    decreases s.len(),
{
    if s.len() > 0 && class.contains(s[0]) {
        let t = s.drop_first();
        lemma_run_length_is_run(t, class);
        assert forall|i: int| 0 <= i < run_length(s, class) implies class.contains(
            #[trigger] s[i],
        ) by {
            if i > 0 {
                assert(s[i] == t[i - 1]);
            }
        }
    }
}

/// The characters of a string slice, in order.
pub fn chars_of(s: &str) -> (v: Vec<char>)
    ensures
        v@ == s@,
{
    let mut v: Vec<char> = Vec::new();
    for c in it: s.chars()
        invariant
            v@ == it.history(),
            it.seq() == s@,
    {
        v.push(c);
    }
    v
}

/// The string made of the characters `v[from..to]`.
pub fn string_from(v: &Vec<char>, from: usize, to: usize) -> (s: String)
    requires
        from <= to <= v.len(),
    ensures
        s@ == v@.subrange(from as int, to as int),
{
    let mut s = String::new();
    let mut i: usize = from;
    while i < to
        invariant
            from <= i <= to <= v.len(),
            s@ == v@.subrange(from as int, i as int),
        decreases to - i,
    {
        s.push(v[i]);
        i += 1;
    }
    s
}

/// The string that holds the one character `c`.
pub fn char_to_string(c: char) -> (s: String)
    ensures
        s@ == seq![c],
{
    let mut s = String::new();
    s.push(c);
    s
}

} // verus!
