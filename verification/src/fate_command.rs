//! The `fate` shell command: reading its arguments.
//!
//! Arguments are split at white space (the Unicode White_Space characters, as
//! `str::split_whitespace` does); the first word selects the subcommand.
use vstd::prelude::*;
use crate::mana_pool::concordance_of_fates::{
    assign_outcome, chars_of, chars_eq, Concordance, ConcordanceError, FateCapabilities, SubjectId,
};

verus! {

/// The Unicode White_Space characters.
pub open spec fn is_ws(c: char) -> bool {
    ||| ('\u{9}' <= c <= '\u{D}')
    ||| c == ' '
    ||| c == '\u{85}'
    ||| c == '\u{A0}'
    ||| c == '\u{1680}'
    ||| ('\u{2000}' <= c <= '\u{200A}')
    ||| c == '\u{2028}'
    ||| c == '\u{2029}'
    ||| c == '\u{202F}'
    ||| c == '\u{205F}'
    ||| c == '\u{3000}'
}

/// The words of `s`: its maximal runs of characters that are not white space.
pub open spec fn words(s: Seq<char>) -> Seq<Seq<char>>
    decreases s.len(),
{
    if s.len() == 0 {
        Seq::empty()
    } else {
        let w = words(s.drop_last());
        let c = s.last();
        if is_ws(c) {
            w
        } else if s.len() >= 2 && !is_ws(s[s.len() - 2]) {
            w.update(w.len() - 1, w.last().push(c))
        } else {
            w.push(seq![c])
        }
    }
}

/// A parsed `fate` command.
#[derive(Debug, Clone, PartialEq, Eq)]
pub enum FateCommand {
    /// No arguments: show the usage.
    Usage,
    /// `fate list`.
    List,
    /// `fate show <name>`.
    Show(Vec<char>),
    /// `fate show` without a name.
    ShowMissingName,
    /// `fate subjects`.
    Subjects,
    /// `fate assign <id> <fate>`.
    Assign(Vec<char>, Vec<char>),
    /// `fate assign` with fewer than two arguments.
    AssignMissingArgs,
    /// `fate seal`.
    Seal,
    /// `fate status`.
    Status,
    /// Any other first word.
    Unknown(Vec<char>),
}

/// The command a list of words asks for.
pub open spec fn command_of(w: Seq<Seq<char>>) -> FateCommand {
    if w.len() == 0 {
        FateCommand::Usage
    } else if w[0] == "list"@ {
        FateCommand::List
    } else if w[0] == "show"@ {
        if w.len() < 2 {
            FateCommand::ShowMissingName
        } else {
            FateCommand::Show(arbitrary())
        }
    } else if w[0] == "subjects"@ {
        FateCommand::Subjects
    } else if w[0] == "assign"@ {
        if w.len() < 3 {
            FateCommand::AssignMissingArgs
        } else {
            FateCommand::Assign(arbitrary(), arbitrary())
        }
    } else if w[0] == "seal"@ {
        FateCommand::Seal
    } else if w[0] == "status"@ {
        FateCommand::Status
    } else {
        FateCommand::Unknown(arbitrary())
    }
}

/// `r` is the command the words ask for, its arguments being the words themselves.
pub open spec fn parsed_as(r: FateCommand, w: Seq<Seq<char>>) -> bool {
    match r {
        FateCommand::Show(name) => command_of(w) is Show && name@ == w[1],
        FateCommand::Assign(id, fate) => command_of(w) is Assign && id@ == w[1] && fate@ == w[2],
        FateCommand::Unknown(word) => command_of(w) is Unknown && word@ == w[0],
        _ => r == command_of(w),
    }
}

/// Split a string into its words.
pub fn split_words(s: &str) -> (r: Vec<Vec<char>>)
    ensures
        r@.len() == words(s@).len(),
        forall|k: int| 0 <= k < r@.len() ==> (#[trigger] r@[k])@ == words(s@)[k],
{
    let chars = chars_of(s);
    let mut out: Vec<Vec<char>> = Vec::new();
    let mut i: usize = 0;
    while i < chars.len()
        invariant
            i <= chars@.len(),
            chars@ == s@,
            out@.len() == words(chars@.subrange(0, i as int)).len(),
            forall|k: int| 0 <= k < out@.len() ==> (#[trigger] out@[k])@ == words(chars@.subrange(0, i as int))[k],
            i > 0 && !is_ws(chars@[i - 1]) ==> out@.len() > 0,
        decreases chars@.len() - i,
    {
        let c = chars[i];
        let ghost prefix = chars@.subrange(0, i as int);
        assert(chars@.subrange(0, i as int + 1).drop_last() =~= prefix);
        assert(chars@.subrange(0, i as int + 1).last() == c);
        if is_whitespace(c) {
        } else if i > 0 && !is_whitespace(chars[i - 1]) {
            assert(chars@.subrange(0, i as int + 1)[i - 1] == chars@[i - 1]);
            let last = out.len() - 1;
            let ghost before = out@;
            out[last].push(c);
            proof {
                assert forall|k: int| 0 <= k < out@.len() implies (#[trigger] out@[k])@ == words(
                    chars@.subrange(0, i as int + 1),
                )[k] by {
                    if k != last {
                        assert(out@[k] == before[k]);
                    }
                }
            }
        } else {
            let mut w: Vec<char> = Vec::new();
            w.push(c);
            assert(w@ =~= seq![c]);
            out.push(w);
        }
        i = i + 1;
    }
    assert(chars@.subrange(0, chars@.len() as int) =~= chars@);
    out
}

/// Whether `c` is white space.
pub fn is_whitespace(c: char) -> (r: bool)
    ensures
        r == is_ws(c),
{
    ('\u{9}' <= c && c <= '\u{D}') || c == ' ' || c == '\u{85}' || c == '\u{A0}' || c == '\u{1680}' || ('\u{2000}'
        <= c && c <= '\u{200A}') || c == '\u{2028}' || c == '\u{2029}' || c == '\u{202F}' || c == '\u{205F}' || c
        == '\u{3000}'
}

/// Whether a word is the literal `lit`.
fn word_is(word: &Vec<char>, lit: &str) -> (r: bool)
    ensures
        r == (word@ == lit@),
{
    let l = chars_of(lit);
    chars_eq(word, &l)
}

/// Parse the arguments of the `fate` command.
pub fn parse_fate_command(args: &str) -> (r: FateCommand)
    ensures
        parsed_as(r, words(args@)),
{
    let w = split_words(args);
    if w.len() == 0 {
        return FateCommand::Usage;
    }
    let first = &w[0];
    if word_is(first, "list") {
        FateCommand::List
    } else if word_is(first, "show") {
        if w.len() < 2 {
            FateCommand::ShowMissingName
        } else {
            FateCommand::Show(w[1].clone())
        }
    } else if word_is(first, "subjects") {
        FateCommand::Subjects
    } else if word_is(first, "assign") {
        if w.len() < 3 {
            FateCommand::AssignMissingArgs
        } else {
            FateCommand::Assign(w[1].clone(), w[2].clone())
        }
    } else if word_is(first, "seal") {
        FateCommand::Seal
    } else if word_is(first, "status") {
        FateCommand::Status
    } else {
        FateCommand::Unknown(first.clone())
    }
}

/// The value of a string of decimal digits, if it fits in 64 bits.
pub open spec fn digits_value(d: Seq<char>) -> int
    decreases d.len(),
{
    if d.len() == 0 {
        0
    } else {
        digits_value(d.drop_last()) * 10 + (d.last() as int - '0' as int)
    }
}

/// The digits part of a number: the string without one leading `+`.
pub open spec fn digits_part(s: Seq<char>) -> Seq<char> {
    if s.len() > 0 && s[0] == '+' {
        s.drop_first()
    } else {
        s
    }
}

/// Every character is a decimal digit.
pub open spec fn all_digits(d: Seq<char>) -> bool {
    forall|i: int| 0 <= i < d.len() ==> '0' <= #[trigger] d[i] <= '9'
}

/// The string reads as a `u64` the way `str::parse::<u64>` reads it: an optional
/// `+`, then at least one decimal digit, with a value below 2^64.
pub open spec fn parses_as_u64(s: Seq<char>) -> Option<u64> {
    let d = digits_part(s);
    if d.len() > 0 && all_digits(d) && digits_value(d) <= u64::MAX {
        Some(digits_value(d) as u64)
    } else {
        None
    }
}

/// Read a Subject identifier given as a decimal number.
pub fn parse_subject_id(s: &Vec<char>) -> (r: Option<u64>)
    ensures
        r == parses_as_u64(s@),
{
    let mut i: usize = 0;
    if s.len() > 0 && s[0] == '+' {
        i = 1;
    }
    let start = i;
    let ghost d = s@.subrange(start as int, s@.len() as int);
    assert(d =~= digits_part(s@));
    if start >= s.len() {
        return None;
    }
    let mut value: u64 = 0;
    while i < s.len()
        invariant
            start <= i <= s@.len(),
            d == s@.subrange(start as int, s@.len() as int),
            d == digits_part(s@),
            start == s@.len() - d.len(),
            forall|k: int| start <= k < i ==> '0' <= #[trigger] s@[k] <= '9',
            value == digits_value(s@.subrange(start as int, i as int)),
        decreases s@.len() - i,
    {
        let c = s[i];
        let ghost prefix = s@.subrange(start as int, i as int);
        assert(s@.subrange(start as int, i as int + 1).drop_last() =~= prefix);
        if c < '0' || c > '9' {
            proof {
                assert(d[i - start] == c);
                assert(!('0' <= d[i - start] <= '9'));
                assert(!all_digits(d));
                assert(parses_as_u64(s@) is None);
            }
            return None;
        }
        let digit = (c as u32 - '0' as u32) as u64;
        assert(digits_value(s@.subrange(start as int, i as int + 1)) == value * 10 + digit);
        if value > (u64::MAX - digit) / 10 {
            proof {
                assert(value * 10 + digit > u64::MAX) by (nonlinear_arith)
                    requires
                        value > (u64::MAX - digit) / 10,
                        digit <= 9,
                ;
                if all_digits(d) {
                    lemma_digits_grow(d, (i - start) as int);
                    assert(d.subrange(0, i - start + 1) =~= s@.subrange(start as int, i as int + 1));
                    assert(digits_value(d) > u64::MAX);
                }
                assert(parses_as_u64(s@) is None);
            }
            return None;
        }
        assert(value * 10 + digit <= u64::MAX) by (nonlinear_arith)
            requires
                value <= (u64::MAX - digit) / 10,
                digit <= 9,
        ;
        value = value * 10 + digit;
        i = i + 1;
    }
    assert(s@.subrange(start as int, s@.len() as int) =~= d);
    Some(value)
}

/// Why a `fate assign` request was not carried out.
#[derive(Debug, Clone)]
pub enum AssignError {
    /// The Subject identifier is not a decimal number that fits in 64 bits.
    InvalidSubjectId,
    /// The Concordance refused the assignment.
    Refused(ConcordanceError),
}

/// The Concordance's own answer within an assignment result.
pub open spec fn concordance_answer(r: Result<SubjectId, AssignError>) -> Result<(), ConcordanceError> {
    match r {
        Ok(_) => Ok(()),
        Err(AssignError::Refused(e)) => Err(e),
        Err(AssignError::InvalidSubjectId) => Ok(()),
    }
}

/// `fate assign <id> <fate>`: read the Subject identifier, then ask the
/// Concordance to assign the Fate to that Subject.
pub fn assign_by_words(concordance: &mut Concordance, subject_word: &str, fate_name: &str) -> (r: Result<
    SubjectId,
    AssignError,
>)
    ensures
        match parses_as_u64(subject_word@) {
            None => r == Err::<SubjectId, AssignError>(AssignError::InvalidSubjectId) && *final(concordance) == *old(
                concordance,
            ),
            Some(v) => {
                &&& r != Err::<SubjectId, AssignError>(AssignError::InvalidSubjectId)
                &&& r is Ok ==> r == Ok::<SubjectId, AssignError>(SubjectId(v))
                &&& assign_outcome(
                    *old(concordance),
                    *final(concordance),
                    SubjectId(v),
                    fate_name@,
                    concordance_answer(r),
                )
            },
        },
{
    let word = chars_of(subject_word);
    let id = match parse_subject_id(&word) {
        None => return Err(AssignError::InvalidSubjectId),
        Some(v) => SubjectId(v),
    };
    match concordance.assign_fate(id, fate_name) {
        Ok(()) => Ok(id),
        Err(e) => Err(AssignError::Refused(e)),
    }
}

/// The capabilities a Fate listing names, in listing order.
pub open spec fn capability_words_of(c: FateCapabilities) -> Seq<Seq<char>> {
    let w0 = Seq::<Seq<char>>::empty();
    let w1 = if c.can_read_files { w0.push("read"@) } else { w0 };
    let w2 = if c.can_write_files { w1.push("write"@) } else { w1 };
    let w3 = if c.can_execute_files { w2.push("exec"@) } else { w2 };
    let w4 = if c.can_fork { w3.push("fork"@) } else { w3 };
    if c.can_bind_network { w4.push("network"@) } else { w4 }
}

/// The words naming a Fate's key capabilities (reading, writing and executing
/// files, forking, binding network sockets), in that order.
pub fn capability_words(caps: &FateCapabilities) -> (r: Vec<&'static str>)
    ensures
        r@.len() == capability_words_of(*caps).len(),
        forall|k: int| 0 <= k < r@.len() ==> (#[trigger] r@[k])@ == capability_words_of(*caps)[k],
{
    let mut out: Vec<&'static str> = Vec::new();
    let ghost c = *caps;
    let ghost w0 = Seq::<Seq<char>>::empty();
    let ghost w1 = if c.can_read_files { w0.push("read"@) } else { w0 };
    let ghost w2 = if c.can_write_files { w1.push("write"@) } else { w1 };
    let ghost w3 = if c.can_execute_files { w2.push("exec"@) } else { w2 };
    let ghost w4 = if c.can_fork { w3.push("fork"@) } else { w3 };
    if caps.can_read_files {
        out.push("read");
    }
    assert(out@.len() == w1.len() && forall|k: int| 0 <= k < out@.len() ==> (#[trigger] out@[k])@ == w1[k]);
    if caps.can_write_files {
        out.push("write");
    }
    assert(out@.len() == w2.len() && forall|k: int| 0 <= k < out@.len() ==> (#[trigger] out@[k])@ == w2[k]);
    if caps.can_execute_files {
        out.push("exec");
    }
    assert(out@.len() == w3.len() && forall|k: int| 0 <= k < out@.len() ==> (#[trigger] out@[k])@ == w3[k]);
    if caps.can_fork {
        out.push("fork");
    }
    assert(out@.len() == w4.len() && forall|k: int| 0 <= k < out@.len() ==> (#[trigger] out@[k])@ == w4[k]);
    if caps.can_bind_network {
        out.push("network");
    }
    out
}

/// A number's digits read further only grow it.
proof fn lemma_digits_grow(d: Seq<char>, n: int)
    requires
        0 <= n < d.len(),
        all_digits(d),
    ensures
        digits_value(d) >= digits_value(d.subrange(0, n + 1)),
    decreases d.len(),
{
    if n + 1 < d.len() {
        assert(d.drop_last().subrange(0, n + 1) =~= d.subrange(0, n + 1));
        lemma_digits_grow(d.drop_last(), n);
        lemma_digits_nonneg(d.drop_last());
    } else {
        assert(d.subrange(0, n + 1) =~= d);
    }
}

/// Digit strings have non-negative values.
proof fn lemma_digits_nonneg(d: Seq<char>)
    requires
        all_digits(d),
    ensures
        digits_value(d) >= 0,
    decreases d.len(),
{
    if d.len() > 0 {
        lemma_digits_nonneg(d.drop_last());
    }
}

} // verus!
