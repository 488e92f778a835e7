//! Turns a plain-text machine-code listing into decoded instructions: one
//! 32-bit binary word per line, with `#` comments, `:` labels and blank
//! lines skipped.

use vstd::prelude::*;
use vstd::arithmetic::power2::{lemma2_to64, lemma_pow2_strictly_increases, pow2};
use vstd::string::StrSliceExecFns;
use crate::emulator::Instruction;
use crate::emulator::instruction::spec_decode;

verus! {

/// Whether a character ends the significant part of a listing line: `#`
/// starts a comment and `:` a label.
pub open spec fn is_stop_char(c: char) -> bool {
    c == '#' || c == ':'
}

/// Whether a character is a binary digit of the listing.
pub open spec fn is_bit_char(c: char) -> bool {
    c == '0' || c == '1'
}

/// The binary digits a listing line contributes: its `0` and `1` characters
/// before the first comment or label mark.
pub open spec fn line_digits(line: Seq<char>) -> Seq<char>
    decreases line.len(),
{
    if line.len() == 0 {
        Seq::empty()
    } else if is_stop_char(line[0]) {
        Seq::empty()
    } else if is_bit_char(line[0]) {
        seq![line[0]] + line_digits(line.drop_first())
    } else {
        line_digits(line.drop_first())
    }
}

/// Whether a comment or label mark occurs in the line.
pub open spec fn has_stop_char(line: Seq<char>) -> bool
    decreases line.len(),
{
    if line.len() == 0 {
        false
    } else if is_stop_char(line[0]) {
        true
    } else {
        has_stop_char(line.drop_first())
    }
}

/// The value of a most-significant-first sequence of binary digits.
pub open spec fn bin_value(digits: Seq<char>) -> nat
    decreases digits.len(),
{
    if digits.len() == 0 {
        0
    } else {
        2 * bin_value(digits.drop_last()) + (if digits.last() == '1' {
            1nat
        } else {
            0nat
        })
    }
}

/// The text split at every newline: one line more than there are newline
/// characters, so the result is never empty.
pub open spec fn split_lines(s: Seq<char>) -> Seq<Seq<char>>
    decreases s.len(),
{
    if s.len() == 0 {
        seq![Seq::<char>::empty()]
    } else if s[0] == '\n' {
        seq![Seq::<char>::empty()] + split_lines(s.drop_first())
    } else {
        let rest = split_lines(s.drop_first());
        seq![seq![s[0]] + rest[0]] + rest.drop_first()
    }
}

/// The instructions a sequence of lines decodes to: every line with a
/// nonempty digit sequence contributes the instruction of its binary word.
pub open spec fn parse_lines(lines: Seq<Seq<char>>) -> Seq<Instruction>
    decreases lines.len(),
{
    if lines.len() == 0 {
        Seq::empty()
    } else {
        let d = line_digits(lines[0]);
        let rest = parse_lines(lines.drop_first());
        if d.len() == 0 {
            rest
        } else {
            seq![spec_decode(bin_value(d) as u32)] + rest
        }
    }
}

/// What parsing a whole listing yields.
pub open spec fn spec_parse_machine_code(s: Seq<char>) -> Seq<Instruction> {
    parse_lines(split_lines(s))
}

/// A listing is well formed when every line contributes either no digits or
/// exactly one 32-bit word.
pub open spec fn listing_well_formed(s: Seq<char>) -> bool {
    forall|k: int|
        0 <= k < split_lines(s).len() ==> {
            let d = line_digits(#[trigger] split_lines(s)[k]);
            d.len() == 0 || d.len() == 32
        }
}

proof fn lemma_split_lines_nonempty(s: Seq<char>)
    ensures
        split_lines(s).len() >= 1,
    decreases s.len(),
{
    if s.len() == 0 {
    } else if s[0] == '\n' {
    } else {
        lemma_split_lines_nonempty(s.drop_first());
    }
}

/// Appending one character extends the last line, or opens a fresh empty
/// line when the character is a newline.
proof fn lemma_split_lines_push(s: Seq<char>, c: char)
    ensures
        c == '\n' ==> split_lines(s.push(c)) == split_lines(s).push(Seq::<char>::empty()),
        c != '\n' ==> split_lines(s.push(c)) == split_lines(s).update(
            split_lines(s).len() - 1,
            split_lines(s).last().push(c),
        ),
    decreases s.len(),
{
    reveal_with_fuel(split_lines, 4);
    lemma_split_lines_nonempty(s);
    if s.len() == 0 {
        if c == '\n' {
            assert(s.push(c) =~= seq![c]);
            assert(s.push(c).drop_first() =~= Seq::<char>::empty());
            assert(split_lines(s.push(c)) =~= split_lines(s).push(Seq::<char>::empty()));
        } else {
            assert(s.push(c) =~= seq![c]);
            assert(s.push(c).drop_first() =~= Seq::<char>::empty());
            assert(seq![c] + Seq::<char>::empty() =~= seq![c]);
            assert(split_lines(s.push(c)) =~= split_lines(s).update(
                0,
                split_lines(s).last().push(c),
            ));
        }
    } else {
        let t = s.drop_first();
        lemma_split_lines_nonempty(t);
        lemma_split_lines_push(t, c);
        assert(s.push(c).drop_first() =~= t.push(c));
        assert(s.push(c)[0] == s[0]);
        let rest = split_lines(t);
        let restp = split_lines(t.push(c));
        if s[0] == '\n' {
            if c == '\n' {
                assert(split_lines(s.push(c)) =~= split_lines(s).push(Seq::<char>::empty()));
            } else {
                assert(split_lines(s.push(c)) =~= split_lines(s).update(
                    split_lines(s).len() - 1,
                    split_lines(s).last().push(c),
                ));
            }
        } else {
            if c == '\n' {
                assert(restp == rest.push(Seq::<char>::empty()));
                assert(restp[0] == rest[0]);
                assert(restp.drop_first() =~= rest.drop_first().push(Seq::<char>::empty()));
                assert(split_lines(s.push(c)) =~= split_lines(s).push(Seq::<char>::empty()));
            } else {
                assert(restp == rest.update(rest.len() - 1, rest.last().push(c)));
                if rest.len() == 1 {
                    assert(restp[0] == rest[0].push(c));
                    assert(restp.drop_first() =~= rest.drop_first());
                    assert(seq![s[0]] + rest[0].push(c) =~= (seq![s[0]] + rest[0]).push(c));
                    assert(split_lines(s.push(c)) =~= split_lines(s).update(
                        split_lines(s).len() - 1,
                        split_lines(s).last().push(c),
                    ));
                } else {
                    assert(restp[0] == rest[0]);
                    assert(restp.drop_first() =~= rest.drop_first().update(
                        rest.len() - 2,
                        rest.last().push(c),
                    ));
                    assert(split_lines(s).last() == rest.last());
                    assert(split_lines(s.push(c)) =~= split_lines(s).update(
                        split_lines(s).len() - 1,
                        split_lines(s).last().push(c),
                    ));
                }
            }
        }
    }
}

/// What one more character does to a line's digits and stop mark.
proof fn lemma_line_digits_push(p: Seq<char>, c: char)
    ensures
        has_stop_char(p.push(c)) == (has_stop_char(p) || is_stop_char(c)),
        has_stop_char(p) ==> line_digits(p.push(c)) == line_digits(p),
        !has_stop_char(p) && is_stop_char(c) ==> line_digits(p.push(c)) == line_digits(p),
        !has_stop_char(p) && !is_stop_char(c) && is_bit_char(c) ==> line_digits(p.push(c))
            == line_digits(p).push(c),
        !has_stop_char(p) && !is_stop_char(c) && !is_bit_char(c) ==> line_digits(p.push(c))
            == line_digits(p),
    decreases p.len(),
{
    reveal_with_fuel(line_digits, 4);
    reveal_with_fuel(has_stop_char, 4);
    if p.len() == 0 {
        assert(p.push(c) =~= seq![c]);
        assert(p.push(c).drop_first() =~= Seq::<char>::empty());
        if !is_stop_char(c) && is_bit_char(c) {
            assert(seq![c] + Seq::<char>::empty() =~= line_digits(p).push(c));
        }
    } else {
        lemma_line_digits_push(p.drop_first(), c);
        assert(p.push(c).drop_first() =~= p.drop_first().push(c));
        assert(p.push(c)[0] == p[0]);
        if !is_stop_char(p[0]) && is_bit_char(p[0]) && !has_stop_char(p) && !is_stop_char(c)
            && is_bit_char(c) {
            assert(seq![p[0]] + line_digits(p.drop_first()).push(c) =~= (seq![p[0]] + line_digits(
                p.drop_first(),
            )).push(c));
        }
    }
}

/// A digit appended at the end doubles the word and adds the new bit.
proof fn lemma_bin_value_push(d: Seq<char>, c: char)
    ensures
        bin_value(d.push(c)) == 2 * bin_value(d) + (if c == '1' {
            1nat
        } else {
            0nat
        }),
{
    assert(d.push(c).drop_last() =~= d);
    assert(d.push(c).last() == c);
}

/// A binary word of `n` digits is below two to the `n`.
proof fn lemma_bin_value_bound(d: Seq<char>)
    ensures
        bin_value(d) < pow2(d.len()),
    decreases d.len(),
{
    if d.len() == 0 {
        lemma2_to64();
    } else {
        vstd::arithmetic::power2::lemma_pow2_unfold(d.len());
        lemma_bin_value_bound(d.drop_last());
    }
}

/// Appending one line appends that line's contribution to the parse.
proof fn lemma_parse_lines_push(lines: Seq<Seq<char>>, l: Seq<char>)
    ensures
        parse_lines(lines.push(l)) == parse_lines(lines) + (if line_digits(l).len() == 0 {
            Seq::<Instruction>::empty()
        } else {
            seq![spec_decode(bin_value(line_digits(l)) as u32)]
        }),
    decreases lines.len(),
{
    let tail = (if line_digits(l).len() == 0 {
        Seq::<Instruction>::empty()
    } else {
        seq![spec_decode(bin_value(line_digits(l)) as u32)]
    });
    reveal_with_fuel(parse_lines, 4);
    if lines.len() == 0 {
        assert(lines.push(l) =~= seq![l]);
        assert(lines.push(l).drop_first() =~= Seq::<Seq<char>>::empty());
        assert(parse_lines(lines.push(l)) =~= parse_lines(lines) + tail);
    } else {
        lemma_parse_lines_push(lines.drop_first(), l);
        assert(lines.push(l).drop_first() =~= lines.drop_first().push(l));
        assert(lines.push(l)[0] == lines[0]);
        let d0 = line_digits(lines[0]);
        if d0.len() == 0 {
            assert(parse_lines(lines.push(l)) =~= parse_lines(lines) + tail);
        } else {
            assert(parse_lines(lines.push(l)) =~= parse_lines(lines) + tail);
        }
    }
}

/// The lines of a prefix of the text agree with the text's own lines, the
/// last one as a prefix of the line it is part of.
proof fn lemma_split_lines_prefix(s: Seq<char>, i: int)
    requires
        0 <= i <= s.len(),
    ensures
        split_lines(s.take(i)).len() <= split_lines(s).len(),
        forall|j: int|
            0 <= j < split_lines(s.take(i)).len() - 1 ==> #[trigger] split_lines(s.take(i))[j]
                == split_lines(s)[j],
        split_lines(s.take(i)).last().is_prefix_of(
            split_lines(s)[split_lines(s.take(i)).len() - 1],
        ),
    decreases s.len(),
{
    reveal_with_fuel(split_lines, 4);
    lemma_split_lines_nonempty(s);
    if i == 0 {
        assert(s.take(0) =~= Seq::<char>::empty());
        assert(split_lines(s)[0].subrange(0, 0) =~= Seq::<char>::empty());
        assert(Seq::<char>::empty().is_prefix_of(split_lines(s)[0]));
    } else {
        let t = s.drop_first();
        lemma_split_lines_nonempty(t);
        lemma_split_lines_prefix(t, i - 1);
        assert(s.take(i).drop_first() =~= t.take(i - 1));
        assert(s.take(i)[0] == s[0]);
        let p = split_lines(t.take(i - 1));
        let f = split_lines(t);
        if s[0] == '\n' {
            assert(split_lines(s.take(i)) == seq![Seq::<char>::empty()] + p);
            assert(split_lines(s) == seq![Seq::<char>::empty()] + f);
        } else {
            assert(split_lines(s.take(i)) == seq![seq![s[0]] + p[0]] + p.drop_first());
            assert(split_lines(s) == seq![seq![s[0]] + f[0]] + f.drop_first());
            if p.len() == 1 {
                assert(p[0].is_prefix_of(f[0]));
                assert((seq![s[0]] + p[0]) =~= (seq![s[0]] + f[0]).subrange(
                    0,
                    (seq![s[0]] + p[0]).len() as int,
                ));
                assert((seq![s[0]] + p[0]).is_prefix_of(seq![s[0]] + f[0]));
            } else {
                assert(p[0] == f[0]);
                assert(split_lines(s.take(i)).last() == p.last());
                assert(split_lines(s)[split_lines(s.take(i)).len() - 1] == f[p.len() - 1]);
            }
        }
    }
}

/// A prefix of a line contributes no more digits than the line itself.
proof fn lemma_line_digits_prefix(p: Seq<char>, l: Seq<char>)
    requires
        p.is_prefix_of(l),
    ensures
        line_digits(p).len() <= line_digits(l).len(),
    decreases p.len(),
{
    if p.len() == 0 {
    } else {
        assert(p[0] == l[0]);
        assert(p.drop_first().is_prefix_of(l.drop_first())) by {
            assert(p.drop_first() =~= l.drop_first().subrange(0, p.len() - 1));
        }
        lemma_line_digits_prefix(p.drop_first(), l.drop_first());
    }
}

/// Parses a machine-code listing: each line's binary digits before any `#`
/// comment or `:` label form one 32-bit word, most significant bit first,
/// and every such word decodes to one instruction; lines without digits are
/// skipped. Every line must carry either no digits or exactly 32.
#[verifier::loop_isolation(false)]
#[verifier::rlimit(100)]
pub fn parse_machine_code(program: String) -> (r: Vec<Instruction>)
    requires
        listing_well_formed(program@),
    ensures
        r@ == spec_parse_machine_code(program@),
{
    let s = program.as_str();
    let n = s.unicode_len();
    let mut result: Vec<Instruction> = Vec::new();
    let mut i: usize = 0;
    let mut stopped: bool = false;
    let mut count: usize = 0;
    let mut value: u32 = 0;
    let ghost mut cur: Seq<char> = Seq::empty();
    proof {
        assert(program@.take(0) =~= Seq::<char>::empty());
        lemma_split_lines_nonempty(program@);
    }
    while i < n
        invariant
            i <= n,
            n == program@.len(),
            s@ == program@,
            split_lines(program@.take(i as int)).last() == cur,
            result@ == parse_lines(split_lines(program@.take(i as int)).drop_last()),
            stopped == has_stop_char(cur),
            count == line_digits(cur).len(),
            value == bin_value(line_digits(cur)),
            count <= 32,
        decreases n - i,
    {
        let ghost pre = program@.take(i as int);
        let ghost lines = split_lines(pre);
        proof {
            lemma_split_lines_nonempty(pre);
            assert(program@.take(i + 1) =~= pre.push(program@[i as int]));
            lemma_split_lines_push(pre, program@[i as int]);
            lemma_line_digits_push(cur, program@[i as int]);
        }
        let c = s.get_char(i);
        if c == '\n' {
            if count != 0 {
                proof {
                    lemma_bin_value_bound(line_digits(cur));
                    if count < 32 {
                        lemma_pow2_strictly_increases(count as nat, 32);
                    }
                    lemma2_to64();
                }
                result.push(Instruction::decode(value));
            }
            proof {
                assert(lines =~= lines.drop_last().push(cur));
                lemma_parse_lines_push(lines.drop_last(), cur);
                assert(split_lines(pre.push('\n')).drop_last() =~= lines);
                assert(split_lines(pre.push('\n')).last() =~= Seq::<char>::empty());
                cur = Seq::empty();
            }
            stopped = false;
            count = 0;
            value = 0;
        } else {
            proof {
                assert(split_lines(pre.push(program@[i as int])).drop_last() =~= lines.drop_last());
                assert(split_lines(pre.push(program@[i as int])).last() == cur.push(
                    program@[i as int],
                ));
            }
            if c == '#' || c == ':' {
                stopped = true;
            } else if !stopped && (c == '0' || c == '1') {
                proof {
                    lemma_split_lines_prefix(program@, i + 1);
                    let k = split_lines(program@.take(i + 1)).len() - 1;
                    lemma_line_digits_prefix(cur.push(program@[i as int]), split_lines(program@)[k]);
                    lemma_bin_value_bound(line_digits(cur));
                    if count < 31 {
                        lemma_pow2_strictly_increases(count as nat, 31);
                    }
                    lemma2_to64();
                    lemma_bin_value_push(line_digits(cur), program@[i as int]);
                }
                value = value * 2 + (if c == '1' {
                    1
                } else {
                    0
                });
                count = count + 1;
            }
            proof {
                cur = cur.push(program@[i as int]);
            }
        }
        i = i + 1;
    }
    proof {
        assert(program@.take(n as int) =~= program@);
    }
    if count != 0 {
        proof {
            lemma_bin_value_bound(line_digits(cur));
            if count < 32 {
                lemma_pow2_strictly_increases(count as nat, 32);
            }
            lemma2_to64();
        }
        result.push(Instruction::decode(value));
    }
    proof {
        let lines = split_lines(program@);
        assert(lines =~= lines.drop_last().push(cur));
        lemma_parse_lines_push(lines.drop_last(), cur);
    }
    result
}

} // verus!
