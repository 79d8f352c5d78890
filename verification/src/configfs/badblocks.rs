//! The attribute for bad blocks.

use crate::block::badblocks::SectorBound;
use crate::configfs::DeviceConfig;
use crate::error::{Errno, Result, EINVAL};
use crate::text::{is_utf8, parse_unsigned};
use vstd::prelude::*;
use vstd::slice::slice_subrange;

verus! {

/// A change of the table of bad blocks.
#[derive(Debug, Clone, Copy, PartialEq, Eq, Structural)]
pub struct BadBlockOp {
    /// Whether the sectors become bad.
    pub bad: bool,
    /// First sector.
    pub start: u64,
    /// Last sector.
    pub end: u64,
}

/// Position of the first byte with a value, the length of the text where there is none.
pub open spec fn position(s: Seq<u8>, byte: u8) -> int
    decreases s.len(),
{
    if s.len() == 0 || s[0] == byte {
        0
    } else {
        1 + position(s.skip(1), byte)
    }
}

/// The first line of a text, without its end.
pub open spec fn first_line(s: Seq<u8>) -> Seq<u8> {
    let end = position(s, 10);
    if 0 < end < s.len() && s[end - 1] == 13 {
        s.take(end - 1)
    } else {
        s.take(end)
    }
}

/// The text behind the first line.
pub open spec fn other_lines(s: Seq<u8>) -> Seq<u8> {
    let end = position(s, 10);
    if end < s.len() {
        s.skip(end + 1)
    } else {
        Seq::empty()
    }
}

/// What a line asks for: `+` or `-`, then the first and the last sector with `-` between them. A
/// line without the second sector asks for nothing.
pub open spec fn line_op(line: Seq<u8>) -> Result<Option<BadBlockOp>> {
    if line.len() == 0 || line[0] != 43 && line[0] != 45 {
        Err(Errno(EINVAL))
    } else {
        let body = line.skip(1);
        let dash = position(body, 45);
        if dash >= body.len() {
            Ok(None)
        } else {
            let start = crate::text::parsed(body.take(dash), 0, u64::MAX as int);
            let end = crate::text::parsed(body.skip(dash + 1), 0, u64::MAX as int);
            if start is Some && end is Some && start->0 <= end->0 {
                Ok(
                    Some(
                        BadBlockOp {
                            bad: line[0] == 43,
                            start: start->0 as u64,
                            end: end->0 as u64,
                        },
                    ),
                )
            } else {
                Err(Errno(EINVAL))
            }
        }
    }
}

/// The changes that the lines of a text ask for, up to the first line that cannot be read, and
/// whether all lines can be read.
pub open spec fn line_ops(s: Seq<u8>) -> (Seq<BadBlockOp>, bool)
    decreases s.len(),
{
    proof {
        lemma_position(s, 10);
    }
    if s.len() == 0 {
        (Seq::empty(), true)
    } else {
        match line_op(first_line(s)) {
            Ok(Some(op)) => {
                let (ops, complete) = line_ops(other_lines(s));
                (seq![op] + ops, complete)
            },
            Ok(None) => line_ops(other_lines(s)),
            Err(_) => (Seq::empty(), false),
        }
    }
}

/// The position of a byte is in the text or at its end.
pub proof fn lemma_position(s: Seq<u8>, byte: u8)
    ensures
        0 <= position(s, byte) <= s.len(),
        position(s, byte) < s.len() ==> s[position(s, byte)] == byte,
        forall|i: int| 0 <= i < position(s, byte) ==> #[trigger] s[i] != byte,
    decreases s.len(),
{
    if s.len() > 0 && s[0] != byte {
        lemma_position(s.skip(1), byte);
        assert forall|i: int| 0 <= i < position(s, byte) implies #[trigger] s[i] != byte by {
            if i > 0 {
                assert(s[i] == s.skip(1)[i - 1]);
            }
        }
    }
}

proof fn lemma_position_is(s: Seq<u8>, byte: u8, at: int)
    requires
        0 <= at <= s.len(),
        at < s.len() ==> s[at] == byte,
        forall|i: int| 0 <= i < at ==> #[trigger] s[i] != byte,
    ensures
        position(s, byte) == at,
{
    lemma_position(s, byte);
}

/// Finds the first byte with a value.
fn find(text: &[u8], from: usize, byte: u8) -> (r: usize)
    requires
        from <= text@.len(),
    ensures
        r - from == position(text@.skip(from as int), byte),
        from <= r <= text@.len(),
{
    let ghost rest = text@.skip(from as int);
    let mut at: usize = from;
    while at < text.len() && text[at] != byte
        invariant
            from <= at <= text@.len(),
            rest == text@.skip(from as int),
            forall|i: int| 0 <= i < at - from ==> #[trigger] rest[i] != byte,
        decreases text@.len() - at,
    {
        assert(rest[at - from] == text@[at as int]);
        at += 1;
    }
    proof {
        if at < text@.len() {
            assert(rest[at - from] == text@[at as int]);
        }
        lemma_position_is(rest, byte, at - from);
    }
    at
}

/// Reads a line.
fn read_line(line: &[u8]) -> (r: Result<Option<BadBlockOp>>)
    ensures
        r == line_op(line@),
{
    if line.len() == 0 || line[0] != 43 && line[0] != 45 {
        return Err(Errno(EINVAL));
    }
    let ghost body = line@.skip(1);
    let dash: usize = find(line, 1, 45);
    if dash >= line.len() {
        return Ok(None);
    }
    let first = slice_subrange(line, 1, dash);
    let last = slice_subrange(line, dash + 1, line.len());
    proof {
        assert(first@ =~= body.take(dash - 1));
        assert(last@ =~= body.skip(dash as int));
    }
    let start: u64 = match parse_unsigned(first, u64::MAX) {
        Some(start) => start,
        None => {
            return Err(Errno(EINVAL));
        },
    };
    let end: u64 = match parse_unsigned(last, u64::MAX) {
        Some(end) => end,
        None => {
            return Err(Errno(EINVAL));
        },
    };
    if start > end {
        return Err(Errno(EINVAL));
    }
    Ok(Some(BadBlockOp { bad: line[0] == 43, start, end }))
}

/// Reads the lines of a text.
pub fn read_lines(page: &[u8]) -> (r: (Vec<BadBlockOp>, bool))
    ensures
        r.0@ == line_ops(page@).0,
        r.1 == line_ops(page@).1,
{
    let mut ops: Vec<BadBlockOp> = Vec::new();
    let mut from: usize = 0;
    assert(page@.skip(0) =~= page@);
    while from < page.len()
        invariant
            from <= page@.len(),
            ops@ + line_ops(page@.skip(from as int)).0 == line_ops(page@).0,
            line_ops(page@.skip(from as int)).1 == line_ops(page@).1,
        decreases page@.len() - from,
    {
        let ghost rest = page@.skip(from as int);
        let end: usize = find(page, from, 10);
        let ends_in_return: bool = from < end && end < page.len() && page[end - 1] == 13;
        let last: usize = if ends_in_return {
            end - 1
        } else {
            end
        };
        let line = slice_subrange(page, from, last);
        assert(line@ =~= first_line(rest));
        let next: usize = if end < page.len() {
            end + 1
        } else {
            end
        };
        assert(page@.skip(next as int) =~= other_lines(rest));
        let ghost others = line_ops(other_lines(rest));
        match read_line(line) {
            Ok(Some(op)) => {
                let ghost before = ops@;
                ops.push(op);
                assert(before + (seq![op] + others.0) =~= ops@ + others.0);
            },
            Ok(None) => {},
            Err(_) => {
                assert(ops@ + Seq::<BadBlockOp>::empty() =~= ops@);
                return (ops, false);
            },
        }
        from = next;
    }
    assert(page@.skip(from as int) =~= Seq::<u8>::empty());
    assert(ops@ + Seq::<BadBlockOp>::empty() =~= ops@);
    (ops, true)
}

/// A change was carried out by the host, or refused.
pub open spec fn answered<S: Fn(u64, u64, i32) -> bool, C: Fn(u64, u64) -> bool>(
    op: BadBlockOp,
    set: S,
    clear: C,
    done: bool,
) -> bool {
    let count = (op.end + 1 - op.start) as u64;
    if op.bad {
        call_ensures(set, (op.start, count, 1i32), done)
    } else {
        call_ensures(clear, (op.start, count), done)
    }
}

/// The first `n` changes were carried out.
pub open spec fn carried_out<S: Fn(u64, u64, i32) -> bool, C: Fn(u64, u64) -> bool>(
    ops: Seq<BadBlockOp>,
    n: int,
    set: S,
    clear: C,
) -> bool {
    0 <= n <= ops.len() && forall|i: int| 0 <= i < n ==> answered(#[trigger] ops[i], set, clear, true)
}

/// The host can be asked for a change.
pub open spec fn askable<S: Fn(u64, u64, i32) -> bool, C: Fn(u64, u64) -> bool>(
    op: BadBlockOp,
    set: S,
    clear: C,
) -> bool {
    let count = (op.end + 1 - op.start) as u64;
    &&& op.end < u64::MAX
    &&& op.bad ==> call_requires(set, (op.start, count, 1i32))
    &&& !op.bad ==> call_requires(clear, (op.start, count))
}

/// The host can be asked for each change once those before it were carried out.
pub open spec fn all_askable<S: Fn(u64, u64, i32) -> bool, C: Fn(u64, u64) -> bool>(
    ops: Seq<BadBlockOp>,
    set: S,
    clear: C,
) -> bool {
    forall|i: int|
        i < ops.len() && #[trigger] carried_out(ops, i, set, clear) ==> askable(ops[i], set, clear)
}

/// The error where the host refuses a change.
pub open spec fn op_error(op: BadBlockOp) -> Errno {
    if op.bad {
        Errno(crate::error::ENOMEM)
    } else {
        Errno(EINVAL)
    }
}

impl DeviceConfig {
    /// Shows the bad blocks. `format` writes the table of the host, without unacknowledged blocks
    /// where its argument is zero, and returns the number of bytes, or a negative error number.
    pub fn show_badblocks<F: FnOnce(i32) -> isize>(&self, format: F) -> (r: Result<usize>)
        requires
            call_requires(format, (0i32,)),
        ensures
            exists|written: isize| #[trigger]
                call_ensures(format, (0i32,), written) && match r {
                    Ok(n) => n == written,
                    Err(e) => written < 0 && e.0 == (if -4095 <= (written as i32) < 0 {
                        written as i32
                    } else {
                        EINVAL
                    }),
                },
    {
        let written: isize = self.bad_blocks.show(false, format);
        if written < 0 {
            Err(Errno::from_errno(written as i32))
        } else {
            Ok(written as usize)
        }
    }

    /// Marks sectors as bad or good, also while the device exists, which then tracks bad blocks, too.
    /// `set` and `clear` change the table of the host; they get the first sector and the number of
    /// sectors, and `set` whether the bad blocks are acknowledged.
    pub fn store_badblocks<S: Fn(u64, u64, i32) -> bool, C: Fn(u64, u64) -> bool>(
        &mut self,
        page: &[u8],
        set: &S,
        clear: &C,
    ) -> (r: Result<()>)
        requires
            vstd::utf8::valid_utf8(page@) ==> all_askable(line_ops(page@).0, *set, *clear),
        ensures
            old(self).inv() ==> final(self).inv(),
            !vstd::utf8::valid_utf8(page@) ==> r == Err::<(), Errno>(Errno(EINVAL)) && *final(self)
                == *old(self),
            vstd::utf8::valid_utf8(page@) ==> *final(self) == (if line_ops(page@).0.len() > 0 {
                old(self).tracking()
            } else {
                *old(self)
            }),
            vstd::utf8::valid_utf8(page@) && line_ops(page@).0.len() > 0
                ==> final(self).bad_blocks.is_enabled(),
            vstd::utf8::valid_utf8(page@) ==> match r {
                Ok(_) => line_ops(page@).1 && carried_out(
                    line_ops(page@).0,
                    line_ops(page@).0.len() as int,
                    *set,
                    *clear,
                ),
                Err(e) => {
                    ||| e == Errno(EINVAL) && !line_ops(page@).1 && carried_out(
                        line_ops(page@).0,
                        line_ops(page@).0.len() as int,
                        *set,
                        *clear,
                    )
                    ||| exists|n: int|
                        n < line_ops(page@).0.len() && #[trigger] carried_out(
                            line_ops(page@).0,
                            n,
                            *set,
                            *clear,
                        ) && answered(line_ops(page@).0[n], *set, *clear, false) && e == op_error(
                            line_ops(page@).0[n],
                        )
                },
            },
    {
        if !is_utf8(page) {
            return Err(Errno(EINVAL));
        }
        let (ops, complete): (Vec<BadBlockOp>, bool) = read_lines(page);
        let ghost all = line_ops(page@).0;
        let mut i: usize = 0;
        while i < ops.len()
            invariant
                i <= ops@.len(),
                ops@ == all,
                all == line_ops(page@).0,
                vstd::utf8::valid_utf8(page@),
                all_askable(all, *set, *clear),
                i == 0 ==> *self == *old(self),
                i > 0 ==> *self == old(self).tracking() && self.bad_blocks.is_enabled(),
                carried_out(all, i as int, *set, *clear),
            decreases ops@.len() - i,
        {
            let op = ops[i];
            assert(op == all[i as int]);
            proof {
                lemma_ops_ordered(page@, i as int);
                crate::configfs::lemma_tracking_once(*old(self));
            }
            assert(askable(all[i as int], *set, *clear));
            self.track_bad_blocks();
            let start = SectorBound::Included(op.start);
            let end = SectorBound::Included(op.end);
            let done: Result<()> = if op.bad {
                self.bad_blocks.set_bad(start, end, true, set)
            } else {
                self.bad_blocks.set_good(start, end, clear)
            };
            match done {
                Ok(()) => {
                    assert(answered(op, *set, *clear, true));
                },
                Err(e) => {
                    assert(carried_out(all, i as int, *set, *clear));
                    assert(answered(all[i as int], *set, *clear, false));
                    return Err(e);
                },
            }
            i += 1;
        }
        if complete {
            Ok(())
        } else {
            Err(Errno(EINVAL))
        }
    }
}

proof fn lemma_ops_ordered(s: Seq<u8>, i: int)
    requires
        0 <= i < line_ops(s).0.len(),
    ensures
        line_ops(s).0[i].start <= line_ops(s).0[i].end,
    decreases s.len(),
{
    if s.len() > 0 {
        lemma_position(s, 10);
        match line_op(first_line(s)) {
            Ok(Some(op)) => {
                if i > 0 {
                    lemma_ops_ordered(other_lines(s), i - 1);
                    assert(line_ops(s).0[i] == line_ops(other_lines(s)).0[i - 1]);
                }
            },
            Ok(None) => {
                lemma_ops_ordered(other_lines(s), i);
            },
            Err(_) => {},
        }
    }
}

} // verus!
