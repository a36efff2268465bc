//! Shell dialects and their history-file decoders.
//!
//! Each decoder turns the raw bytes of a history file into an ordered list
//! of commands, newest first, capped at `HISTORY_CAP` entries.  A buffer
//! that is not valid UTF-8 (after the zsh byte-level unescaping, where that
//! applies) decodes to the empty list rather than an error.

use vstd::prelude::*;

use crate::text::{
    bytes_to_string, char_ix, chars_to_string, copy_range, find_char,
    lemma_char_ix_at, lines_spec, split_lines, str_to_chars, trim_chars, trim_spec,
};
use vstd::utf8::{decode_utf8, valid_utf8};

verus! {

/// The most entries a decoder keeps; the newest are kept.
pub const HISTORY_CAP: usize = 1000;

/// A shell dialect, deciding which history-file format is read.
#[derive(Debug, Clone, PartialEq, Eq)]
pub enum ShellType {
    PowerShell,
    Zsh,
    Bash,
    Fish,
    /// An unrecognised shell, named by its reported path; treated like Bash.
    Unknown(String),
}

/// Zsh's "metafied" byte escaping, undone: a 0x83 marker byte is dropped
/// and the byte after it is XORed with 32; a marker at the very end is
/// dropped alone.
pub open spec fn unmetafy(s: Seq<u8>) -> Seq<u8>
    decreases s.len(),
{
    if s.len() == 0 {
        Seq::empty()
    } else if s[0] == 0x83 {
        if s.len() >= 2 {
            seq![s[1] ^ 32] + unmetafy(s.skip(2))
        } else {
            Seq::empty()
        }
    } else {
        seq![s[0]] + unmetafy(s.skip(1))
    }
}

/// Undoes zsh's metafied byte escaping.
pub fn unmetafy_bytes(content: &Vec<u8>) -> (r: Vec<u8>)
    ensures
        r@ == unmetafy(content@),
{
    let mut out: Vec<u8> = Vec::new();
    let mut p: usize = 0;
    proof {
        assert(content@.skip(0) =~= content@);
        assert(out@ + unmetafy(content@) =~= unmetafy(content@));
    }
    while p < content.len()
        invariant
            p <= content.len(),
            unmetafy(content@) == out@ + unmetafy(content@.skip(p as int)),
        decreases content.len() - p,
    {
        let ghost t = content@.skip(p as int);
        let ghost old_out = out@;
        let c = content[p];
        if c == 0x83 {
            if p + 1 < content.len() {
                out.push(content[p + 1] ^ 32);
                proof {
                    assert(t.skip(2) =~= content@.skip(p + 2));
                    assert(old_out + unmetafy(t) =~= out@ + unmetafy(content@.skip(p + 2)));
                }
                p = p + 2;
            } else {
                proof {
                    assert(unmetafy(t) =~= Seq::<u8>::empty());
                    assert(old_out + unmetafy(t) =~= out@ + unmetafy(content@.skip(
                        content@.len() as int,
                    )));
                }
                p = content.len();
            }
        } else {
            out.push(c);
            proof {
                assert(t.skip(1) =~= content@.skip(p + 1));
                assert(old_out + unmetafy(t) =~= out@ + unmetafy(content@.skip(p + 1)));
            }
            p = p + 1;
        }
    }
    proof {
        assert(content@.skip(p as int) =~= Seq::<u8>::empty());
        assert(out@ + unmetafy(content@.skip(p as int)) =~= out@);
    }
    out
}

/// Keeps at most `HISTORY_CAP` entries from the front of a list.
pub open spec fn cap_spec(s: Seq<Seq<char>>) -> Seq<Seq<char>> {
    if s.len() <= HISTORY_CAP {
        s
    } else {
        s.take(HISTORY_CAP as int)
    }
}

/// The text after the first occurrence of `sep`, or `None` if `sep` does
/// not occur; what `str::split_once` keeps of a zsh history line.
pub open spec fn split_tail(s: Seq<char>, sep: char) -> Option<Seq<char>> {
    let i = char_ix(s, sep);
    if 0 <= i < s.len() {
        Some(s.skip(i + 1))
    } else {
        None
    }
}

/// What one zsh history line contributes: the trimmed command after the
/// metadata separator, or nothing for a line without a separator.
pub open spec fn zsh_entry(l: Seq<char>, sep: char) -> Seq<Seq<char>> {
    match split_tail(l, sep) {
        Some(c) => seq![trim_spec(c)],
        None => Seq::empty(),
    }
}

/// The commands contributed by a list of zsh history lines, in line order.
pub open spec fn zsh_extract(lines: Seq<Seq<char>>, sep: char) -> Seq<Seq<char>>
    decreases lines.len(),
{
    if lines.len() == 0 {
        Seq::empty()
    } else {
        zsh_entry(lines.first(), sep) + zsh_extract(lines.drop_first(), sep)
    }
}

/// An ASCII decimal digit.
pub open spec fn is_digit_char(c: char) -> bool {
    '0' <= c && c <= '9'
}

/// A bash history timestamp comment: `#` followed by one or more digits.
pub open spec fn is_timestamp_line(l: Seq<char>) -> bool {
    l.len() >= 2 && l[0] == '#' && (forall|j: int| 1 <= j < l.len() ==> is_digit_char(#[trigger] l[j]))
}

/// The commands contributed by a list of bash history lines: every line
/// except timestamp comments, verbatim.
pub open spec fn bash_extract(lines: Seq<Seq<char>>) -> Seq<Seq<char>>
    decreases lines.len(),
{
    if lines.len() == 0 {
        Seq::empty()
    } else {
        (if is_timestamp_line(lines.first()) {
            Seq::empty()
        } else {
            seq![lines.first()]
        }) + bash_extract(lines.drop_first())
    }
}

/// The commands contributed by a list of PowerShell history lines: every
/// line trimmed, blank lines dropped.
pub open spec fn ps_extract(lines: Seq<Seq<char>>) -> Seq<Seq<char>>
    decreases lines.len(),
{
    if lines.len() == 0 {
        Seq::empty()
    } else {
        ({
            let t = trim_spec(lines.first());
            if t.len() == 0 {
                Seq::empty()
            } else {
                seq![t]
            }
        }) + ps_extract(lines.drop_first())
    }
}

/// The marker that begins a command line in a fish history file.
pub open spec fn fish_prefix() -> Seq<char> {
    "- cmd: "@
}

/// The position of the first escaped-newline pair `\n` (backslash then
/// `n`) in `s`, or `s.len()` if there is none.
pub open spec fn esc_ix(s: Seq<char>) -> int
    decreases s.len(),
{
    if s.len() < 2 {
        s.len() as int
    } else if s[0] == '\\' && s[1] == 'n' {
        0
    } else {
        1 + esc_ix(s.drop_first())
    }
}

/// `esc_ix` is the unique position with no escaped-newline pair before it
/// and a pair (or the end of the sequence) at it.
pub proof fn lemma_esc_ix_at(s: Seq<char>, i: int)
    requires
        0 <= i <= s.len(),
        forall|j: int| #![trigger s[j]] 0 <= j < i && j + 1 < s.len() ==> !(s[j] == '\\' && s[j + 1]
            == 'n'),
        i + 2 <= s.len() ==> s[i] == '\\' && s[i + 1] == 'n',
        i + 2 > s.len() ==> i == s.len(),
    ensures
        esc_ix(s) == i,
    decreases i,
{
    if s.len() < 2 {
    } else if s[0] == '\\' && s[1] == 'n' {
        if i > 0 {
            assert(!(s[0] == '\\' && s[1] == 'n'));
        }
    } else {
        assert(i >= 1) by {
            if i == 0 {
                assert(s[0] == '\\' && s[1] == 'n');
            }
        }
        lemma_esc_ix_at(s.drop_first(), i - 1);
    }
}

/// The pieces of a fish command, split at every escaped-newline pair; a
/// command without one is a single piece.
pub open spec fn split_esc(s: Seq<char>) -> Seq<Seq<char>>
    decreases s.len(),
{
    let i = esc_ix(s);
    if 0 <= i && i + 2 <= s.len() {
        seq![s.take(i)] + split_esc(s.skip(i + 2))
    } else {
        seq![s]
    }
}

/// The logical commands of one fish command entry: its escaped-newline
/// pieces, each trimmed.
pub open spec fn fish_pieces_spec(s: Seq<char>) -> Seq<Seq<char>> {
    split_esc(s).map_values(|p: Seq<char>| trim_spec(p))
}

/// What one fish history line contributes: nothing unless it starts a
/// command entry, else the trimmed pieces of the command after the marker.
pub open spec fn fish_entry(l: Seq<char>) -> Seq<Seq<char>> {
    if l.len() >= fish_prefix().len() && l.take(fish_prefix().len() as int) == fish_prefix() {
        fish_pieces_spec(l.skip(fish_prefix().len() as int))
    } else {
        Seq::empty()
    }
}

/// The commands contributed by a list of fish history lines, in line order.
pub open spec fn fish_extract(lines: Seq<Seq<char>>) -> Seq<Seq<char>>
    decreases lines.len(),
{
    if lines.len() == 0 {
        Seq::empty()
    } else {
        fish_entry(lines.first()) + fish_extract(lines.drop_first())
    }
}

/// The zsh command list decoded from a text: extract, newest first, capped.
pub open spec fn zsh_commands(text: Seq<char>, sep: char) -> Seq<Seq<char>> {
    cap_spec(zsh_extract(lines_spec(text), sep).reverse())
}

/// The bash command list decoded from a text.
pub open spec fn bash_commands(text: Seq<char>) -> Seq<Seq<char>> {
    cap_spec(bash_extract(lines_spec(text)).reverse())
}

/// The PowerShell command list decoded from a text.
pub open spec fn ps_commands(text: Seq<char>) -> Seq<Seq<char>> {
    cap_spec(ps_extract(lines_spec(text)).reverse())
}

/// The fish command list decoded from a text.
pub open spec fn fish_commands(text: Seq<char>) -> Seq<Seq<char>> {
    cap_spec(fish_extract(lines_spec(text)).reverse())
}

/// Decides `is_timestamp_line`.
fn is_timestamp(l: &Vec<char>) -> (r: bool)
    ensures
        r == is_timestamp_line(l@),
{
    if l.len() < 2 || l[0] != '#' {
        return false;
    }
    let mut j: usize = 1;
    while j < l.len()
        invariant
            1 <= j <= l.len(),
            2 <= l.len(),
            l@[0] == '#',
            forall|k: int| 1 <= k < j ==> is_digit_char(#[trigger] l@[k]),
        decreases l.len() - j,
    {
        let c = l[j];
        if !('0' <= c && c <= '9') {
            return false;
        }
        j = j + 1;
    }
    true
}

/// The bash extraction step over a whole list of lines.
fn extract_bash(lines: &Vec<Vec<char>>) -> (r: Vec<Vec<char>>)
    ensures
        r.deep_view() == bash_extract(lines.deep_view()),
{
    let mut out: Vec<Vec<char>> = Vec::new();
    let mut i: usize = 0;
    proof {
        assert(lines.deep_view().skip(0) =~~= lines.deep_view());
        assert(out.deep_view() + bash_extract(lines.deep_view()) =~~= bash_extract(
            lines.deep_view(),
        ));
    }
    while i < lines.len()
        invariant
            i <= lines.len(),
            bash_extract(lines.deep_view()) == out.deep_view() + bash_extract(
                lines.deep_view().skip(i as int),
            ),
        decreases lines.len() - i,
    {
        let ghost t = lines.deep_view().skip(i as int);
        let ghost old_out = out.deep_view();
        proof {
            assert(t.first() == lines.deep_view()[i as int]);
            assert(lines.deep_view()[i as int] =~= lines@[i as int]@);
            assert(t.drop_first() =~~= lines.deep_view().skip(i + 1));
        }
        let l = &lines[i];
        if !is_timestamp(l) {
            let seg = copy_range(l, 0, l.len());
            proof {
                assert(seg@ =~= l@);
            }
            out.push(seg);
            proof {
                assert(out.deep_view() =~~= old_out.push(l@));
                assert(old_out.push(l@) + bash_extract(t.drop_first()) =~~= old_out + bash_extract(
                    t,
                ));
            }
        } else {
            proof {
                assert(old_out + bash_extract(t.drop_first()) =~~= old_out + bash_extract(t));
            }
        }
        i = i + 1;
    }
    proof {
        assert(lines.deep_view().skip(lines@.len() as int) =~~= Seq::<Seq<char>>::empty());
        assert(out.deep_view() + bash_extract(Seq::<Seq<char>>::empty()) =~~= out.deep_view());
    }
    out
}

/// The PowerShell extraction step over a whole list of lines.
fn extract_ps(lines: &Vec<Vec<char>>) -> (r: Vec<Vec<char>>)
    ensures
        r.deep_view() == ps_extract(lines.deep_view()),
{
    let mut out: Vec<Vec<char>> = Vec::new();
    let mut i: usize = 0;
    proof {
        assert(lines.deep_view().skip(0) =~~= lines.deep_view());
        assert(out.deep_view() + ps_extract(lines.deep_view()) =~~= ps_extract(lines.deep_view()));
    }
    while i < lines.len()
        invariant
            i <= lines.len(),
            ps_extract(lines.deep_view()) == out.deep_view() + ps_extract(
                lines.deep_view().skip(i as int),
            ),
        decreases lines.len() - i,
    {
        let ghost t = lines.deep_view().skip(i as int);
        let ghost old_out = out.deep_view();
        proof {
            assert(t.first() == lines.deep_view()[i as int]);
            assert(lines.deep_view()[i as int] =~= lines@[i as int]@);
            assert(t.drop_first() =~~= lines.deep_view().skip(i + 1));
        }
        let trimmed = trim_chars(&lines[i]);
        if trimmed.len() > 0 {
            out.push(trimmed);
            proof {
                assert(out.deep_view() =~~= old_out.push(trim_spec(t.first())));
                assert(old_out.push(trim_spec(t.first())) + ps_extract(t.drop_first()) =~~= old_out
                    + ps_extract(t));
            }
        } else {
            proof {
                assert(old_out + ps_extract(t.drop_first()) =~~= old_out + ps_extract(t));
            }
        }
        i = i + 1;
    }
    proof {
        assert(lines.deep_view().skip(lines@.len() as int) =~~= Seq::<Seq<char>>::empty());
        assert(out.deep_view() + ps_extract(Seq::<Seq<char>>::empty()) =~~= out.deep_view());
    }
    out
}

/// The zsh extraction step over a whole list of lines.
fn extract_zsh(lines: &Vec<Vec<char>>, sep: char) -> (r: Vec<Vec<char>>)
    ensures
        r.deep_view() == zsh_extract(lines.deep_view(), sep),
{
    let mut out: Vec<Vec<char>> = Vec::new();
    let mut i: usize = 0;
    proof {
        assert(lines.deep_view().skip(0) =~~= lines.deep_view());
        assert(out.deep_view() + zsh_extract(lines.deep_view(), sep) =~~= zsh_extract(
            lines.deep_view(),
            sep,
        ));
    }
    while i < lines.len()
        invariant
            i <= lines.len(),
            zsh_extract(lines.deep_view(), sep) == out.deep_view() + zsh_extract(
                lines.deep_view().skip(i as int),
                sep,
            ),
        decreases lines.len() - i,
    {
        let ghost t = lines.deep_view().skip(i as int);
        let ghost old_out = out.deep_view();
        proof {
            assert(t.first() == lines.deep_view()[i as int]);
            assert(lines.deep_view()[i as int] =~= lines@[i as int]@);
            assert(t.drop_first() =~~= lines.deep_view().skip(i + 1));
        }
        let l = &lines[i];
        let ix = find_char(l, sep, 0);
        proof {
            lemma_char_ix_at(l@, sep, ix as int);
        }
        if ix < l.len() {
            let tail = copy_range(l, ix + 1, l.len());
            proof {
                assert(tail@ =~= l@.skip(ix + 1));
            }
            let trimmed = trim_chars(&tail);
            out.push(trimmed);
            proof {
                assert(out.deep_view() =~~= old_out.push(trim_spec(l@.skip(ix + 1))));
                assert(old_out.push(trim_spec(l@.skip(ix + 1))) + zsh_extract(t.drop_first(), sep)
                    =~~= old_out + zsh_extract(t, sep));
            }
        } else {
            proof {
                assert(split_tail(l@, sep) is None);
                assert(old_out + zsh_extract(t.drop_first(), sep) =~~= old_out + zsh_extract(
                    t,
                    sep,
                ));
            }
        }
        i = i + 1;
    }
    proof {
        assert(lines.deep_view().skip(lines@.len() as int) =~~= Seq::<Seq<char>>::empty());
        assert(out.deep_view() + zsh_extract(Seq::<Seq<char>>::empty(), sep) =~~= out.deep_view());
    }
    out
}

/// Decides whether a line begins with the fish command marker.
fn has_fish_prefix(l: &Vec<char>) -> (r: bool)
    ensures
        r == (l@.len() >= fish_prefix().len() && l@.take(fish_prefix().len() as int)
            == fish_prefix()),
{
    proof {
        reveal_strlit("- cmd: ");
    }
    if l.len() < 7 {
        return false;
    }
    let r = l[0] == '-' && l[1] == ' ' && l[2] == 'c' && l[3] == 'm' && l[4] == 'd' && l[5] == ':'
        && l[6] == ' ';
    proof {
        if r {
            assert(l@.take(7) =~= fish_prefix());
        } else {
            if l@.take(7) == fish_prefix() {
                assert(l@[0] == fish_prefix()[0]);
                assert(l@[1] == fish_prefix()[1]);
                assert(l@[2] == fish_prefix()[2]);
                assert(l@[3] == fish_prefix()[3]);
                assert(l@[4] == fish_prefix()[4]);
                assert(l@[5] == fish_prefix()[5]);
                assert(l@[6] == fish_prefix()[6]);
            }
        }
    }
    r
}

/// Splits one fish command into its trimmed escaped-newline pieces.
fn fish_pieces(v: &Vec<char>) -> (r: Vec<Vec<char>>)
    ensures
        r.deep_view() == fish_pieces_spec(v@),
{
    let mut out: Vec<Vec<char>> = Vec::new();
    let mut start: usize = 0;
    let mut done = false;
    proof {
        assert(v@.skip(0) =~= v@);
        assert(out.deep_view() + fish_pieces_spec(v@) =~~= fish_pieces_spec(v@));
    }
    while !done
        invariant
            start <= v.len(),
            !done ==> fish_pieces_spec(v@) == out.deep_view() + fish_pieces_spec(
                v@.skip(start as int),
            ),
            done ==> fish_pieces_spec(v@) == out.deep_view(),
        decreases (if done {
            0int
        } else {
            v.len() - start + 1
        }),
    {
        let ghost t = v@.skip(start as int);
        let ghost old_out = out.deep_view();
        let mut e: usize = start;
        while e < v.len() && e + 1 < v.len() && !(v[e] == '\\' && v[e + 1] == 'n')
            invariant
                start <= e <= v.len(),
                forall|j: int|
                    #![trigger v@[j]]
                    start <= j < e && j + 1 < v@.len() ==> !(v@[j] == '\\' && v@[j + 1] == 'n'),
            decreases v.len() - e,
        {
            e = e + 1;
        }
        if e < v.len() && e + 1 < v.len() {
            proof {
                assert forall|j: int|
                    #![trigger t[j]]
                    0 <= j < e - start && j + 1 < t.len() implies !(t[j] == '\\' && t[j + 1] == 'n') by {
                    assert(t[j] == v@[start + j]);
                    assert(t[j + 1] == v@[start + j + 1]);
                }
                lemma_esc_ix_at(t, e - start);
            }
            let seg = copy_range(v, start, e);
            proof {
                assert(seg@ =~= t.take(e - start));
            }
            let trimmed = trim_chars(&seg);
            out.push(trimmed);
            proof {
                assert(t.skip(e - start + 2) =~= v@.skip(e + 2));
                assert(split_esc(t) == seq![t.take(e - start)] + split_esc(v@.skip(e + 2)));
                assert(out.deep_view() =~~= old_out.push(trim_spec(t.take(e - start))));
                assert(old_out.push(trim_spec(t.take(e - start))) + fish_pieces_spec(
                    v@.skip(e + 2),
                ) =~~= old_out + fish_pieces_spec(t));
            }
            start = e + 2;
        } else {
            proof {
                assert forall|j: int|
                    #![trigger t[j]]
                    0 <= j < t.len() && j + 1 < t.len() implies !(t[j] == '\\' && t[j + 1] == 'n') by {
                    assert(t[j] == v@[start + j]);
                    assert(t[j + 1] == v@[start + j + 1]);
                }
                lemma_esc_ix_at(t, t.len() as int);
            }
            let seg = copy_range(v, start, v.len());
            proof {
                assert(seg@ =~= t);
            }
            let trimmed = trim_chars(&seg);
            out.push(trimmed);
            proof {
                assert(split_esc(t) == seq![t]);
                assert(out.deep_view() =~~= old_out.push(trim_spec(t)));
                assert(old_out.push(trim_spec(t)) =~~= old_out + fish_pieces_spec(t));
            }
            done = true;
        }
    }
    out
}

/// The fish extraction step over a whole list of lines.
fn extract_fish(lines: &Vec<Vec<char>>) -> (r: Vec<Vec<char>>)
    ensures
        r.deep_view() == fish_extract(lines.deep_view()),
{
    let mut out: Vec<Vec<char>> = Vec::new();
    let mut i: usize = 0;
    proof {
        assert(lines.deep_view().skip(0) =~~= lines.deep_view());
        assert(out.deep_view() + fish_extract(lines.deep_view()) =~~= fish_extract(
            lines.deep_view(),
        ));
    }
    while i < lines.len()
        invariant
            i <= lines.len(),
            fish_extract(lines.deep_view()) == out.deep_view() + fish_extract(
                lines.deep_view().skip(i as int),
            ),
        decreases lines.len() - i,
    {
        let ghost t = lines.deep_view().skip(i as int);
        let ghost old_out = out.deep_view();
        proof {
            assert(t.first() == lines.deep_view()[i as int]);
            assert(lines.deep_view()[i as int] =~= lines@[i as int]@);
            assert(t.drop_first() =~~= lines.deep_view().skip(i + 1));
        }
        let l = &lines[i];
        if has_fish_prefix(l) {
            proof {
                reveal_strlit("- cmd: ");
            }
            let rest = copy_range(l, 7, l.len());
            proof {
                assert(rest@ =~= l@.skip(fish_prefix().len() as int));
            }
            let pieces = fish_pieces(&rest);
            let ghost appended = pieces.deep_view();
            append_lists(&mut out, pieces);
            proof {
                assert(fish_entry(t.first()) == appended);
                assert(out.deep_view() + fish_extract(t.drop_first()) =~~= old_out + fish_extract(
                    t,
                ));
            }
        } else {
            proof {
                assert(fish_entry(t.first()) =~~= Seq::<Seq<char>>::empty());
                assert(old_out + fish_extract(t.drop_first()) =~~= old_out + fish_extract(t));
            }
        }
        i = i + 1;
    }
    proof {
        assert(lines.deep_view().skip(lines@.len() as int) =~~= Seq::<Seq<char>>::empty());
        assert(out.deep_view() + fish_extract(Seq::<Seq<char>>::empty()) =~~= out.deep_view());
    }
    out
}

/// Moves every element of `more` to the end of `v`.
fn append_lists(v: &mut Vec<Vec<char>>, more: Vec<Vec<char>>)
    ensures
        final(v).deep_view() == old(v).deep_view() + more.deep_view(),
{
    let ghost all = more.deep_view();
    let mut i: usize = 0;
    let n = more.len();
    proof {
        assert(v.deep_view() + all.take(0) =~~= v.deep_view());
    }
    while i < n
        invariant
            i <= n == more.len(),
            all == more.deep_view(),
            v.deep_view() == old(v).deep_view() + all.take(i as int),
        decreases n - i,
    {
        let ghost before = v.deep_view();
        let piece = copy_range(&more[i], 0, more[i].len());
        proof {
            assert(piece@ =~= all[i as int]);
        }
        v.push(piece);
        proof {
            assert(v.deep_view() =~~= before.push(all[i as int]));
            assert(before.push(all[i as int]) =~~= old(v).deep_view() + all.take(i + 1));
        }
        i = i + 1;
    }
    proof {
        assert(all.take(n as int) =~~= all);
    }
}

/// Reverses a list of commands, newest last becoming newest first.
fn reverse_lists(v: Vec<Vec<char>>) -> (r: Vec<Vec<char>>)
    ensures
        r.deep_view() == v.deep_view().reverse(),
{
    let mut out: Vec<Vec<char>> = Vec::new();
    let mut i: usize = v.len();
    while i > 0
        invariant
            i <= v.len(),
            out.len() == v.len() - i,
            forall|k: int|
                0 <= k < out.len() ==> out.deep_view()[k] == v.deep_view()[v@.len() - 1 - k],
        decreases i,
    {
        i = i - 1;
        let seg = copy_range(&v[i], 0, v[i].len());
        let ghost before = out.deep_view();
        proof {
            assert(seg@ =~= v.deep_view()[i as int]);
        }
        out.push(seg);
        proof {
            assert(out.deep_view() =~~= before.push(v.deep_view()[i as int]));
        }
    }
    proof {
        assert(out.deep_view() =~~= v.deep_view().reverse());
    }
    out
}

/// Keeps at most `HISTORY_CAP` commands.
fn cap_lists(v: Vec<Vec<char>>) -> (r: Vec<Vec<char>>)
    ensures
        r.deep_view() == cap_spec(v.deep_view()),
{
    let mut v = v;
    if v.len() > HISTORY_CAP {
        let ghost before = v.deep_view();
        v.truncate(HISTORY_CAP);
        proof {
            assert(v.deep_view() =~~= before.take(HISTORY_CAP as int));
        }
    }
    v
}

/// Turns each command's characters into a `String`.
fn lists_to_strings(v: &Vec<Vec<char>>) -> (r: Vec<String>)
    ensures
        r.deep_view() == v.deep_view(),
{
    let mut out: Vec<String> = Vec::new();
    let mut i: usize = 0;
    while i < v.len()
        invariant
            i <= v.len(),
            out.len() == i,
            forall|k: int| 0 <= k < i ==> out.deep_view()[k] == v.deep_view()[k],
        decreases v.len() - i,
    {
        let ghost before = out.deep_view();
        let s = chars_to_string(&v[i]);
        out.push(s);
        proof {
            assert(out.deep_view() =~~= before.push(v.deep_view()[i as int]));
        }
        i = i + 1;
    }
    proof {
        assert(out.deep_view() =~~= v.deep_view());
    }
    out
}

/// The command list a dialect decodes from a byte buffer: empty when the
/// buffer (after unescaping, for zsh) is not valid UTF-8.
pub open spec fn parsed_commands(shell: ShellType, bytes: Seq<u8>) -> Seq<Seq<char>> {
    match shell {
        ShellType::PowerShell => if valid_utf8(bytes) {
            ps_commands(decode_utf8(bytes))
        } else {
            Seq::empty()
        },
        ShellType::Zsh => {
            let m = unmetafy(bytes);
            if valid_utf8(m) {
                zsh_commands(decode_utf8(m), ';')
            } else {
                Seq::empty()
            }
        },
        ShellType::Bash => if valid_utf8(bytes) {
            bash_commands(decode_utf8(bytes))
        } else {
            Seq::empty()
        },
        ShellType::Fish => if valid_utf8(bytes) {
            fish_commands(decode_utf8(bytes))
        } else {
            Seq::empty()
        },
        ShellType::Unknown(_) => if valid_utf8(bytes) {
            bash_commands(decode_utf8(bytes))
        } else {
            Seq::empty()
        },
    }
}

/// Decodes a UTF-8 byte buffer and splits it into lines; `None` when the
/// buffer is not valid UTF-8.
fn decode_lines(content: Vec<u8>) -> (r: Option<Vec<Vec<char>>>)
    ensures
        r is Some <==> valid_utf8(content@),
        r is Some ==> r->Some_0.deep_view() == lines_spec(decode_utf8(content@)),
{
    match bytes_to_string(content) {
        None => None,
        Some(s) => {
            let cs = str_to_chars(s.as_str());
            Some(split_lines(&cs))
        },
    }
}

/// Orders extracted commands newest first, caps them and builds strings.
fn finish_commands(cmds: Vec<Vec<char>>) -> (r: Vec<String>)
    ensures
        r.deep_view() == cap_spec(cmds.deep_view().reverse()),
{
    let rev = reverse_lists(cmds);
    let capped = cap_lists(rev);
    lists_to_strings(&capped)
}

impl ShellType {
    /// Decodes a PowerShell history file: one command per line, trimmed,
    /// blank lines dropped, newest first, capped.
    pub fn parse_powershell(content: Vec<u8>) -> (r: Vec<String>)
        ensures
            r.deep_view() == parsed_commands(ShellType::PowerShell, content@),
    {
        let ghost b = content@;
        match decode_lines(content) {
            None => {
                let r: Vec<String> = Vec::new();
                proof {
                    assert(r.deep_view() =~~= Seq::<Seq<char>>::empty());
                }
                r
            },
            Some(lines) => finish_commands(extract_ps(&lines)),
        }
    }

    /// Decodes a bash history file: one command per line, timestamp
    /// comments dropped, newest first, capped.
    pub fn parse_bash(content: Vec<u8>) -> (r: Vec<String>)
        ensures
            r.deep_view() == parsed_commands(ShellType::Bash, content@),
    {
        let ghost b = content@;
        match decode_lines(content) {
            None => {
                let r: Vec<String> = Vec::new();
                proof {
                    assert(r.deep_view() =~~= Seq::<Seq<char>>::empty());
                }
                r
            },
            Some(lines) => finish_commands(extract_bash(&lines)),
        }
    }

    /// Decodes a zsh history file with a chosen metadata separator.  The
    /// separator between a line's metadata and its command varies between
    /// zsh history formats (`;` or `:`); callers pick one.
    pub fn parse_zsh_with_separator(content: Vec<u8>, sep: char) -> (r: Vec<String>)
        ensures
            ({
                let m = unmetafy(content@);
                r.deep_view() == (if valid_utf8(m) {
                    zsh_commands(decode_utf8(m), sep)
                } else {
                    Seq::<Seq<char>>::empty()
                })
            }),
    {
        let un = unmetafy_bytes(&content);
        match decode_lines(un) {
            None => {
                let r: Vec<String> = Vec::new();
                proof {
                    assert(r.deep_view() =~~= Seq::<Seq<char>>::empty());
                }
                r
            },
            Some(lines) => finish_commands(extract_zsh(&lines, sep)),
        }
    }

    /// Decodes a zsh history file: bytes unescaped, each line's command
    /// taken after the first `;`, trimmed, newest first, capped.
    pub fn parse_zsh(content: Vec<u8>) -> (r: Vec<String>)
        ensures
            r.deep_view() == parsed_commands(ShellType::Zsh, content@),
    {
        Self::parse_zsh_with_separator(content, ';')
    }

    /// Decodes a fish history file: `- cmd: ` lines, split at escaped
    /// newlines, each piece trimmed, newest first, capped.
    pub fn parse_fish(content: Vec<u8>) -> (r: Vec<String>)
        ensures
            r.deep_view() == parsed_commands(ShellType::Fish, content@),
    {
        let ghost b = content@;
        match decode_lines(content) {
            None => {
                let r: Vec<String> = Vec::new();
                proof {
                    assert(r.deep_view() =~~= Seq::<Seq<char>>::empty());
                }
                r
            },
            Some(lines) => finish_commands(extract_fish(&lines)),
        }
    }

    /// Decodes a history file in this dialect's format; an unknown shell
    /// falls back to the bash format.
    pub fn parse_history(&self, content: Vec<u8>) -> (r: Vec<String>)
        ensures
            r.deep_view() == parsed_commands(*self, content@),
    {
        match self {
            ShellType::PowerShell => Self::parse_powershell(content),
            ShellType::Zsh => Self::parse_zsh(content),
            ShellType::Bash => Self::parse_bash(content),
            ShellType::Fish => Self::parse_fish(content),
            ShellType::Unknown(_) => Self::parse_bash(content),
        }
    }
}

/// The single placeholder entry shown when no history could be read.
pub open spec fn sentinel_entry() -> Seq<char> {
    "No history found"@
}

/// The history list a session starts from: the decoded commands, or the
/// placeholder entry when the file was unreadable or decoded to nothing.
pub open spec fn loaded_history(shell: ShellType, content: Option<Vec<u8>>) -> Seq<Seq<char>> {
    match content {
        Some(b) => {
            let p = parsed_commands(shell, b@);
            if p.len() == 0 {
                seq![sentinel_entry()]
            } else {
                p
            }
        },
        None => seq![sentinel_entry()],
    }
}

/// Builds the starting history list from the raw file contents, `None`
/// standing for a file that could not be read.  The result is never empty:
/// a missing or undecodable history is replaced by a placeholder entry, so
/// the session always has something to display.
pub fn load_history(shell: &ShellType, content: Option<Vec<u8>>) -> (r: Vec<String>)
    ensures
        r.deep_view() == loaded_history(*shell, content),
        r.deep_view().len() > 0,
{
    let parsed = match content {
        Some(b) => shell.parse_history(b),
        None => Vec::new(),
    };
    if parsed.len() == 0 {
        let mut r: Vec<String> = Vec::new();
        r.push(String::from_str("No history found"));
        proof {
            assert(r.deep_view() =~~= seq![sentinel_entry()]);
        }
        r
    } else {
        parsed
    }
}

} // verus!
