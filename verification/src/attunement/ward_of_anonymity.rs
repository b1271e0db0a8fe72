//! # The Ward of Anonymity (Symbol Hiding)
//!
//! Kernel symbol names and addresses are hidden from unprivileged observers.
//! While the ward is enabled, only kernel code may see symbols; with the ward
//! disabled (debugging), everyone may. The ward's state is passed explicitly.
use vstd::prelude::*;
use crate::mana_pool::concordance_of_fates::chars_of;

verus! {

/// Privilege level for symbol access.
#[derive(Debug, Clone, Copy, PartialEq, Eq, Structural)]
pub enum PrivilegeLevel {
    /// Kernel code - full access.
    Kernel,
    /// Privileged userspace - limited access.
    Privileged,
    /// Unprivileged userspace - no access.
    Unprivileged,
}

/// Symbol information.
#[derive(Debug, Clone)]
pub struct Symbol {
    /// Symbol name (function name).
    pub name: &'static str,
    /// Symbol address.
    pub address: u64,
    /// Symbol size in bytes.
    pub size: usize,
}

/// An address that may or may not be shown with its symbol.
#[derive(Debug, Clone, Copy, PartialEq, Eq, Structural)]
pub struct FormattedAddress {
    pub address: u64,
    pub show_symbol: bool,
}

/// Who may see symbols: everyone while the ward is disabled, only the kernel otherwise.
pub open spec fn may_see_symbols(level: PrivilegeLevel, anonymity_enabled: bool) -> bool {
    !anonymity_enabled || level == PrivilegeLevel::Kernel
}

/// Check if a privilege level can access symbols.
pub fn can_access_symbols(level: PrivilegeLevel, anonymity_enabled: bool) -> (r: bool)
    ensures
        r == may_see_symbols(level, anonymity_enabled),
{
    if !anonymity_enabled {
        return true;
    }
    match level {
        PrivilegeLevel::Kernel => true,
        _ => false,
    }
}

/// Format a kernel address, with its symbol only for those who may see symbols.
pub fn format_address(addr: u64, level: PrivilegeLevel, anonymity_enabled: bool) -> (r: FormattedAddress)
    ensures
        r.address == addr,
        r.show_symbol == may_see_symbols(level, anonymity_enabled),
{
    FormattedAddress { address: addr, show_symbol: can_access_symbols(level, anonymity_enabled) }
}

/// A character that can be part of a function name.
pub open spec fn is_name_char(c: char) -> bool {
    ('a' <= c <= 'z') || ('A' <= c <= 'Z') || ('0' <= c <= '9') || c == '_'
}

/// End of the run of name characters of `s` starting at `i`.
pub open spec fn name_end(s: Seq<char>, i: int) -> int
    decreases s.len() - i,
{
    if 0 <= i < s.len() && is_name_char(s[i]) {
        name_end(s, i + 1)
    } else {
        i
    }
}

/// A run of name characters stays within the string.
pub proof fn lemma_name_end_bounds(s: Seq<char>, i: int)
    requires
        0 <= i <= s.len(),
    ensures
        i <= name_end(s, i) <= s.len(),
    decreases s.len() - i,
{
    if i < s.len() && is_name_char(s[i]) {
        lemma_name_end_bounds(s, i + 1);
    }
}

/// `s` from position `i` on with every function call `name()` replaced by `<hidden>`.
pub open spec fn redacted_from(s: Seq<char>, i: int) -> Seq<char>
    decreases s.len() - i,
{
    if i < 0 || i >= s.len() {
        Seq::empty()
    } else {
        let j = name_end(s, i);
        proof {
            lemma_name_end_bounds(s, i);
        }
        if j > i && j + 1 < s.len() && s[j] == '(' && s[j + 1] == ')' {
            "<hidden>"@ + redacted_from(s, j + 2)
        } else if j > i {
            s.subrange(i, j) + redacted_from(s, j)
        } else {
            seq![s[i]] + redacted_from(s, i + 1)
        }
    }
}

/// The chars collected into a `String`, as `FromIterator<&char>` for `String` documents.
#[verifier::external_body]
fn string_from_chars(chars: &Vec<char>) -> (r: String)
    ensures
        r@ == chars@,
{
    String::from_iter(chars.iter())
}

/// Whether `c` can be part of a function name.
fn name_char(c: char) -> (r: bool)
    ensures
        r == is_name_char(c),
{
    ('a' <= c && c <= 'z') || ('A' <= c && c <= 'Z') || ('0' <= c && c <= '9') || c == '_'
}

/// The string for those who may see symbols; for others, the string with each
/// function name shown as a call (`name()`) replaced by `<hidden>`.
pub fn redact_string(s: &str, level: PrivilegeLevel, anonymity_enabled: bool) -> (r: String)
    ensures
        may_see_symbols(level, anonymity_enabled) ==> r@ == s@,
        !may_see_symbols(level, anonymity_enabled) ==> r@ == redacted_from(s@, 0),
{
    if can_access_symbols(level, anonymity_enabled) {
        return s.to_owned();
    }
    let chars = chars_of(s);
    let hidden = chars_of("<hidden>");
    let n = chars.len();
    let mut out: Vec<char> = Vec::new();
    let mut i: usize = 0;
    while i < n
        invariant
            n == chars@.len(),
            chars@ == s@,
            hidden@ == "<hidden>"@,
            i <= n,
            out@ + redacted_from(chars@, i as int) == redacted_from(chars@, 0),
        decreases n - i,
    {
        let ghost o0 = out@;
        let mut j = i;
        while j < n && name_char(chars[j])
            invariant
                i <= j <= n,
                n == chars@.len(),
                name_end(chars@, i as int) == name_end(chars@, j as int),
            decreases n - j,
        {
            j = j + 1;
        }
        let ghost rest = redacted_from(chars@, i as int);
        if j > i && n - j >= 2 && chars[j] == '(' && chars[j + 1] == ')' {
            let mut k: usize = 0;
            while k < hidden.len()
                invariant
                    k <= hidden@.len(),
                    out@ == o0 + hidden@.subrange(0, k as int),
                decreases hidden@.len() - k,
            {
                out.push(hidden[k]);
                assert(hidden@.subrange(0, k as int + 1) =~= hidden@.subrange(0, k as int).push(hidden@[k as int]));
                k = k + 1;
            }
            assert(hidden@.subrange(0, hidden@.len() as int) =~= hidden@);
            assert(rest == "<hidden>"@ + redacted_from(chars@, j as int + 2));
            assert(out@ + redacted_from(chars@, j as int + 2) =~= o0 + rest);
            i = j + 2;
        } else if j > i {
            let mut k: usize = i;
            while k < j
                invariant
                    i <= k <= j <= n,
                    n == chars@.len(),
                    out@ == o0 + chars@.subrange(i as int, k as int),
                decreases j - k,
            {
                out.push(chars[k]);
                assert(chars@.subrange(i as int, k as int + 1) =~= chars@.subrange(i as int, k as int).push(
                    chars@[k as int],
                ));
                k = k + 1;
            }
            assert(rest == chars@.subrange(i as int, j as int) + redacted_from(chars@, j as int));
            assert(out@ + redacted_from(chars@, j as int) =~= o0 + rest);
            i = j;
        } else {
            out.push(chars[i]);
            assert(rest == seq![chars@[i as int]] + redacted_from(chars@, i as int + 1));
            assert(out@ + redacted_from(chars@, i as int + 1) =~= o0 + rest);
            i = i + 1;
        }
    }
    assert(out@ + redacted_from(chars@, i as int) =~= out@);
    string_from_chars(&out)
}

/// Sanitize a panic message: hidden while the ward is enabled.
pub fn sanitize_panic_message(msg: &str, anonymity_enabled: bool) -> (r: &str)
    ensures
        anonymity_enabled ==> r@ == "kernel panic (details hidden)"@,
        !anonymity_enabled ==> r@ == msg@,
{
    if anonymity_enabled {
        "kernel panic (details hidden)"
    } else {
        msg
    }
}

/// Panic details are shown only while the ward is disabled.
pub fn should_show_panic_details(anonymity_enabled: bool) -> (r: bool)
    ensures
        r == !anonymity_enabled,
{
    !anonymity_enabled
}

/// A function name for those who may see symbols, `<hidden>` otherwise.
pub fn format_function_name<'a>(name: &'a str, level: PrivilegeLevel, anonymity_enabled: bool) -> (r: &'a str)
    ensures
        may_see_symbols(level, anonymity_enabled) ==> r@ == name@,
        !may_see_symbols(level, anonymity_enabled) ==> r@ == "<hidden>"@,
{
    if can_access_symbols(level, anonymity_enabled) {
        name
    } else {
        "<hidden>"
    }
}

/// Symbol lookup (privileged): addresses at or above the kernel base resolve to a
/// placeholder name; nothing resolves for those who may not see symbols.
pub fn lookup_symbol(addr: u64, level: PrivilegeLevel, anonymity_enabled: bool, kernel_base: u64) -> (r: Option<&'static str>)
    ensures
        !may_see_symbols(level, anonymity_enabled) ==> r is None,
        may_see_symbols(level, anonymity_enabled) && addr < kernel_base ==> r is None,
        may_see_symbols(level, anonymity_enabled) && addr >= kernel_base ==> (r matches Some(n) && n@
            == "<kernel_function>"@),
{
    if !can_access_symbols(level, anonymity_enabled) {
        return None;
    }
    if addr >= kernel_base {
        Some("<kernel_function>")
    } else {
        None
    }
}

/// Symbol table size: `Some(0)` for those who may see symbols, `None` otherwise.
pub fn get_symbol_count(level: PrivilegeLevel, anonymity_enabled: bool) -> (r: Option<usize>)
    ensures
        may_see_symbols(level, anonymity_enabled) ==> r == Some(0usize),
        !may_see_symbols(level, anonymity_enabled) ==> r is None,
{
    if can_access_symbols(level, anonymity_enabled) {
        Some(0)
    } else {
        None
    }
}

} // verus!
