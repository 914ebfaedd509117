use vstd::prelude::*;

verus! {

/// The character classes the scanners recognise.
#[derive(Clone, Copy, PartialEq, Eq, Structural)]
pub enum CharClass {
    Digit,
    Whitespace,
    Space,
    Alphabetic,
    IdentChar,
}

pub open spec fn in_class(c: char, k: CharClass) -> bool {
    match k {
        CharClass::Digit => '0' <= c && c <= '9',
        CharClass::Whitespace => c == ' ' || c == '\n',
        CharClass::Space => c == ' ',
        CharClass::Alphabetic => ('a' <= c && c <= 'z') || ('A' <= c && c <= 'Z'),
        CharClass::IdentChar => ('a' <= c && c <= 'z') || ('A' <= c && c <= 'Z') || ('0' <= c
            && c <= '9') || c == '_',
    }
}

/// Length of the longest prefix of `s` made of characters of class `k`.
pub open spec fn run_len(k: CharClass, s: Seq<char>) -> nat
    decreases s.len(),
{
    if s.len() > 0 && in_class(s[0], k) {
        1 + run_len(k, s.drop_first())
    } else {
        0
    }
}

/// `s` with its longest prefix of class `k` removed.
pub open spec fn skip_run(k: CharClass, s: Seq<char>) -> Seq<char> {
    s.subrange(run_len(k, s) as int, s.len() as int)
}

/// The remainder of `s` after `lit`, when `s` starts with `lit`.
pub open spec fn tag_rest(lit: Seq<char>, s: Seq<char>) -> Option<Seq<char>> {
    if lit.is_prefix_of(s) {
        Some(s.subrange(lit.len() as int, s.len() as int))
    } else {
        None
    }
}

/// The leading identifier of `s` and what follows it: a letter, then letters,
/// digits and underscores.
pub open spec fn ident_split(s: Seq<char>) -> Option<(Seq<char>, Seq<char>)> {
    if s.len() > 0 && in_class(s[0], CharClass::Alphabetic) {
        let n = run_len(CharClass::IdentChar, s);
        Some((s.subrange(n as int, s.len() as int), s.subrange(0, n as int)))
    } else {
        None
    }
}

pub proof fn lemma_run_len(k: CharClass, s: Seq<char>, n: nat)
    requires
        n <= s.len(),
        forall|j: int| 0 <= j < n ==> in_class(#[trigger] s[j], k),
        n == s.len() || !in_class(s[n as int], k),
    ensures
        run_len(k, s) == n,
    decreases n,
{
    if n > 0 {
        lemma_run_len(k, s.drop_first(), (n - 1) as nat);
    }
}

pub proof fn lemma_run_len_bound(k: CharClass, s: Seq<char>)
    ensures
        run_len(k, s) <= s.len(),
        forall|j: int| 0 <= j < run_len(k, s) ==> in_class(#[trigger] s[j], k),
    decreases s.len(),
{
    if s.len() > 0 && in_class(s[0], k) {
        lemma_run_len_bound(k, s.drop_first());
        assert forall|j: int| 0 <= j < run_len(k, s) implies in_class(#[trigger] s[j], k) by {
            if j > 0 {
                assert(s[j] == s.drop_first()[j - 1]);
            }
        }
    }
}

pub fn class_has(c: char, k: CharClass) -> (r: bool)
    ensures
        r == in_class(c, k),
{
    match k {
        CharClass::Digit => '0' <= c && c <= '9',
        CharClass::Whitespace => c == ' ' || c == '\n',
        CharClass::Space => c == ' ',
        CharClass::Alphabetic => ('a' <= c && c <= 'z') || ('A' <= c && c <= 'Z'),
        CharClass::IdentChar => ('a' <= c && c <= 'z') || ('A' <= c && c <= 'Z') || ('0' <= c
            && c <= '9') || c == '_',
    }
}

/// Splits off the longest prefix of class `k`: returns the remainder and the
/// prefix.
pub fn take_while(k: CharClass, s: &str) -> (r: (&str, &str))
    ensures
        r.0@ == skip_run(k, s@),
        r.1@ == s@.subrange(0, run_len(k, s@) as int),
        r.0@.len() + run_len(k, s@) == s@.len(),
{
    let len = s.unicode_len();
    let mut i: usize = 0;
    while i < len && class_has(s.get_char(i), k)
        invariant
            i <= len,
            len == s@.len(),
            forall|j: int| 0 <= j < i ==> in_class(#[trigger] s@[j], k),
        decreases len - i,
    {
        i = i + 1;
    }
    proof {
        lemma_run_len(k, s@, i as nat);
    }
    (s.substring_char(i, len), s.substring_char(0, i))
}

pub fn extract_digits(s: &str) -> (r: Result<(&str, &str), String>)
    ensures
        r is Ok <==> run_len(CharClass::Digit, s@) > 0,
        r matches Ok((rest, digits)) ==> rest@ == skip_run(CharClass::Digit, s@) && digits@
            == s@.subrange(0, run_len(CharClass::Digit, s@) as int) && rest@.len() < s@.len(),
{
    let (rest, digits) = take_while(CharClass::Digit, s);
    if digits.unicode_len() == 0 {
        Err(String::from_str("expected digits"))
    } else {
        Ok((rest, digits))
    }
}

pub fn extract_whitespace(s: &str) -> (r: (&str, &str))
    ensures
        r.0@ == skip_run(CharClass::Whitespace, s@),
        r.1@ == s@.subrange(0, run_len(CharClass::Whitespace, s@) as int),
        r.0@.len() <= s@.len(),
{
    take_while(CharClass::Whitespace, s)
}

pub fn extract_spaces(s: &str) -> (r: &str)
    ensures
        r@ == skip_run(CharClass::Space, s@),
        r@.len() <= s@.len(),
{
    take_while(CharClass::Space, s).0
}

pub fn extract_whitespace1(s: &str) -> (r: Result<(&str, &str), String>)
    ensures
        r is Ok <==> run_len(CharClass::Whitespace, s@) > 0,
        r matches Ok((rest, ws)) ==> rest@ == skip_run(CharClass::Whitespace, s@) && rest@.len()
            < s@.len(),
{
    let (rest, ws) = take_while(CharClass::Whitespace, s);
    if ws.unicode_len() == 0 {
        Err(String::from_str("expected a space"))
    } else {
        Ok((rest, ws))
    }
}

pub fn extract_ident(s: &str) -> (r: Result<(&str, &str), String>)
    ensures
        r is Ok <==> ident_split(s@) is Some,
        r matches Ok((rest, ident)) ==> ident_split(s@) == Some((rest@, ident@)) && rest@.len()
            < s@.len(),
{
    proof {
        lemma_run_len_bound(CharClass::IdentChar, s@);
    }
    let len = s.unicode_len();
    if len > 0 && class_has(s.get_char(0), CharClass::Alphabetic) {
        Ok(take_while(CharClass::IdentChar, s))
    } else {
        Err(String::from_str("expected identifier"))
    }
}

pub fn tag<'a>(lit: &str, s: &'a str) -> (r: Result<&'a str, String>)
    ensures
        r is Ok <==> tag_rest(lit@, s@) is Some,
        r matches Ok(rest) ==> tag_rest(lit@, s@) == Some(rest@) && rest@.len() == s@.len()
            - lit@.len(),
{
    let n = lit.unicode_len();
    let len = s.unicode_len();
    if n > len {
        return Err(String::from_str("expected ").concat(lit));
    }
    let mut i: usize = 0;
    while i < n
        invariant
            i <= n <= len,
            n == lit@.len(),
            len == s@.len(),
            forall|j: int| 0 <= j < i ==> lit@[j] == s@[j],
        decreases n - i,
    {
        if lit.get_char(i) != s.get_char(i) {
            return Err(String::from_str("expected ").concat(lit));
        }
        i = i + 1;
    }
    Ok(s.substring_char(n, len))
}

} // verus!
