//! The click-stream parser: recovers discrete click records from a byte
//! stream framed as a perpetual JSON array — an opening `[` and newline,
//! then each element terminated by a newline, with a comma before or after
//! it — and dispatches each record onto the shared UI state.

use crate::bar::Click;
use crate::state::{opened_views, remove_name, State};
use vstd::prelude::*;

verus! {

/// The stream's opening bytes, stripped when present: `[` then a newline.
/// The check is safe to repeat on a stream that was already stripped.
pub open spec fn strip_open(b: Seq<u8>) -> Seq<u8> {
    if b.len() >= 2 && b[0] == 91 && b[1] == 10 {
        b.skip(2)
    } else {
        b
    }
}

/// ASCII whitespace as the record cleanup treats it.
pub open spec fn is_ws(b: u8) -> bool {
    b == 32 || b == 9 || b == 10 || b == 13
}

/// The record's interior once a full line is buffered: the leading `,` or
/// `[` delimiter stripped when present, and the trailing newline always.
pub open spec fn raw_body(b: Seq<u8>) -> Seq<u8>
    recommends
        b.len() > 0,
{
    if b[0] == 44 || b[0] == 91 {
        b.subrange(1, b.len() - 1)
    } else {
        b.subrange(0, b.len() - 1)
    }
}

/// The bytes with leading whitespace removed.
pub open spec fn trim_leading(s: Seq<u8>) -> Seq<u8>
    decreases s.len(),
{
    if s.len() > 0 && is_ws(s[0]) {
        trim_leading(s.skip(1))
    } else {
        s
    }
}

/// The bytes with trailing whitespace removed.
pub open spec fn trim_trailing(s: Seq<u8>) -> Seq<u8>
    decreases s.len(),
{
    if s.len() > 0 && is_ws(s.last()) {
        trim_trailing(s.drop_last())
    } else {
        s
    }
}

/// The record body handed to the JSON parser: surrounding whitespace
/// removed, and one trailing element comma — the protocol sender terminates
/// an element with `,` and newline — removed with the whitespace before it.
pub open spec fn clean_body(s: Seq<u8>) -> Seq<u8> {
    let t = trim_trailing(trim_leading(s));
    if t.len() > 0 && t.last() == 44 {
        trim_trailing(t.drop_last())
    } else {
        t
    }
}

proof fn lemma_trim_leading_at(s: Seq<u8>, k: int)
    requires
        0 <= k <= s.len(),
        forall|j: int| 0 <= j < k ==> is_ws(#[trigger] s[j]),
        k == s.len() || !is_ws(s[k]),
    ensures
        trim_leading(s) == s.skip(k),
    decreases k,
{
    if k == 0 {
        assert(s.skip(0) =~= s);
    } else {
        assert(is_ws(s[0]));
        assert(forall|j: int| 0 <= j < k - 1 ==> is_ws(#[trigger] s.skip(1)[j]));
        if k < s.len() {
            assert(s.skip(1)[k - 1] == s[k]);
        }
        lemma_trim_leading_at(s.skip(1), k - 1);
        assert(s.skip(1).skip(k - 1) =~= s.skip(k));
    }
}

proof fn lemma_trim_trailing_at(s: Seq<u8>, e: int)
    requires
        0 <= e <= s.len(),
        forall|j: int| e <= j < s.len() ==> is_ws(#[trigger] s[j]),
        e == 0 || !is_ws(s[e - 1]),
    ensures
        trim_trailing(s) == s.take(e),
    decreases s.len(),
{
    if e == s.len() {
        if s.len() > 0 {
            assert(!is_ws(s.last()));
        }
        assert(s.take(e) =~= s);
    } else {
        assert(is_ws(s.last()));
        assert(forall|j: int|
            e <= j < s.drop_last().len() ==> is_ws(#[trigger] s.drop_last()[j]));
        if e > 0 {
            assert(s.drop_last()[e - 1] == s[e - 1]);
        }
        lemma_trim_trailing_at(s.drop_last(), e);
        assert(s.drop_last().take(e) =~= s.take(e));
    }
}

fn is_ws_byte(b: u8) -> (r: bool)
    ensures
        r == is_ws(b),
{
    b == 32 || b == 9 || b == 10 || b == 13
}

/// The click-stream parser's buffer: bytes accumulate until a full record
/// line is present; a record that parsed is consumed, one that did not stays
/// buffered until more bytes arrive.
#[derive(Debug)]
pub struct ClickParser {
    buf: Vec<u8>,
}

impl View for ClickParser {
    type V = Seq<u8>;

    closed spec fn view(&self) -> Seq<u8> {
        self.buf@
    }
}

impl ClickParser {
    /// An empty buffer, awaiting the stream's opening bytes.
    pub fn new() -> (r: ClickParser)
        ensures
            r@ == Seq::<u8>::empty(),
    {
        ClickParser { buf: Vec::new() }
    }

    /// How many bytes wait in the buffer.
    pub fn buffered(&self) -> (r: usize)
        ensures
            r == self@.len(),
    {
        self.buf.len()
    }

    /// Drop the record line just parsed: the buffer starts over empty.
    pub fn consume(&mut self)
        ensures
            final(self)@ == Seq::<u8>::empty(),
    {
        self.buf = Vec::new();
    }

    /// Accumulate `bytes`, strip the stream opening when it is present, and
    /// when the buffer holds a full line — it ends in a newline — hand out
    /// the cleaned record body for parsing. The buffer itself is kept: the
    /// caller calls `consume` only when the body parsed as a record.
    #[verifier::rlimit(100)]
    pub fn feed(&mut self, bytes: &[u8]) -> (r: Option<Vec<u8>>)
        ensures
            final(self)@ == strip_open(old(self)@ + bytes@),
            match r {
                Option::Some(body) => final(self)@.len() > 0 && final(self)@.last() == 10
                    && body@ == clean_body(raw_body(final(self)@)),
                Option::None => final(self)@.len() == 0 || final(self)@.last() != 10,
            },
    {
        let mut j: usize = 0;
        while j < bytes.len()
            invariant
                j <= bytes@.len(),
                self.buf@ == old(self)@ + bytes@.take(j as int),
            decreases bytes@.len() - j,
        {
            self.buf.push(bytes[j]);
            proof {
                assert(old(self)@ + bytes@.take(j as int + 1) =~= (old(self)@ + bytes@.take(
                    j as int,
                )).push(bytes@[j as int]));
            }
            j = j + 1;
        }
        proof {
            assert(bytes@.take(bytes@.len() as int) =~= bytes@);
        }
        let ghost whole = old(self)@ + bytes@;
        if self.buf.len() >= 2 && self.buf[0] == 91 && self.buf[1] == 10 {
            let mut nb: Vec<u8> = Vec::new();
            let mut k: usize = 2;
            while k < self.buf.len()
                invariant
                    2 <= k <= self.buf@.len(),
                    self.buf@ == whole,
                    nb@ == whole.subrange(2, k as int),
                decreases self.buf@.len() - k,
            {
                nb.push(self.buf[k]);
                proof {
                    assert(whole.subrange(2, k as int + 1) =~= whole.subrange(2, k as int).push(
                        whole[k as int],
                    ));
                }
                k = k + 1;
            }
            proof {
                assert(whole.subrange(2, whole.len() as int) =~= whole.skip(2));
            }
            self.buf = nb;
        }
        let ghost cur = self.buf@;
        proof {
            assert(cur == strip_open(whole));
        }
        let n = self.buf.len();
        if n == 0 {
            return Option::None;
        }
        if self.buf[n - 1] != 10 {
            return Option::None;
        }
        let start0: usize = if self.buf[0] == 44 || self.buf[0] == 91 {
            1
        } else {
            0
        };
        let end0: usize = n - 1;
        let ghost raw = raw_body(cur);
        proof {
            assert(raw =~= cur.subrange(start0 as int, end0 as int));
        }
        let mut s: usize = start0;
        let mut e: usize = end0;
        while s < e && is_ws_byte(self.buf[s])
            invariant
                start0 <= s <= e,
                e == end0,
                end0 < n == self.buf@.len(),
                cur == self.buf@,
                forall|j: int| start0 <= j < s ==> is_ws(#[trigger] cur[j]),
            decreases e - s,
        {
            s = s + 1;
        }
        proof {
            assert(forall|j: int| 0 <= j < s - start0 ==> is_ws(#[trigger] raw[j]));
            if s < e {
                assert(raw[s - start0] == cur[s as int]);
            }
            lemma_trim_leading_at(raw, s - start0);
            assert(raw.skip(s - start0) =~= cur.subrange(s as int, end0 as int));
        }
        let ghost t1 = cur.subrange(s as int, end0 as int);
        while e > s && is_ws_byte(self.buf[e - 1])
            invariant
                s <= e <= end0,
                end0 < n == self.buf@.len(),
                cur == self.buf@,
                forall|j: int| e <= j < end0 ==> is_ws(#[trigger] cur[j]),
            decreases e,
        {
            e = e - 1;
        }
        proof {
            assert(forall|j: int| e - s <= j < t1.len() ==> is_ws(#[trigger] t1[j]));
            if e > s {
                assert(t1[e - s - 1] == cur[e - 1]);
            }
            lemma_trim_trailing_at(t1, e - s);
            assert(t1.take(e - s) =~= cur.subrange(s as int, e as int));
        }
        let ghost t2 = cur.subrange(s as int, e as int);
        proof {
            assert(t2 == trim_trailing(trim_leading(raw)));
        }
        if e > s && self.buf[e - 1] == 44 {
            proof {
                assert(t2.last() == 44);
            }
            e = e - 1;
            let ghost t3 = cur.subrange(s as int, e as int);
            proof {
                assert(t3 =~= t2.drop_last());
            }
            while e > s && is_ws_byte(self.buf[e - 1])
                invariant
                    s <= e,
                    e as int <= t3.len() + s,
                    s as int + t3.len() <= end0 as int,
                    end0 < n == self.buf@.len(),
                    cur == self.buf@,
                    t3 == cur.subrange(s as int, s as int + t3.len()),
                    forall|j: int| e - s <= j < t3.len() ==> is_ws(#[trigger] t3[j]),
                decreases e,
            {
                proof {
                    assert(t3[e - s - 1] == cur[e - 1]);
                }
                e = e - 1;
            }
            proof {
                if e > s {
                    assert(t3[e - s - 1] == cur[e - 1]);
                }
                lemma_trim_trailing_at(t3, e - s);
                assert(t3.take(e - s) =~= cur.subrange(s as int, e as int));
                assert(cur.subrange(s as int, e as int) == clean_body(raw));
            }
        } else {
            proof {
                if t2.len() > 0 {
                    assert(t2.last() == cur[e - 1]);
                }
                assert(cur.subrange(s as int, e as int) == clean_body(raw));
            }
        }
        let mut body: Vec<u8> = Vec::new();
        let mut p: usize = s;
        while p < e
            invariant
                s <= p <= e,
                e <= end0 < n == self.buf@.len(),
                cur == self.buf@,
                body@ == cur.subrange(s as int, p as int),
            decreases e - p,
        {
            body.push(self.buf[p]);
            proof {
                assert(cur.subrange(s as int, p as int + 1) =~= cur.subrange(
                    s as int,
                    p as int,
                ).push(cur[p as int]));
            }
            p = p + 1;
        }
        Option::Some(body)
    }
}

/// Dispatch one parsed click: the two pagination sentinels page the display,
/// any other name toggles that item's expanded state.
pub fn dispatch_click(state: &mut State, click: &Click, page_count: usize)
    requires
        old(state).page < page_count,
        1 <= page_count,
    ensures
        final(state).page < page_count,
        click.name@ == "yaib-page-up"@ ==> final(state).opened == old(state).opened
            && final(state).page as int == (if old(state).page + 1 < page_count {
            old(state).page + 1
        } else {
            old(state).page as int
        }),
        click.name@ == "yaib-page-down"@ ==> final(state).opened == old(state).opened
            && final(state).page as int == (if old(state).page > 0 {
            old(state).page - 1
        } else {
            0
        }),
        (click.name@ != "yaib-page-up"@ && click.name@ != "yaib-page-down"@)
            ==> final(state).page == old(state).page && opened_views(final(state).opened@) == (
        if opened_views(old(state).opened@).contains(click.name@) {
            remove_name(opened_views(old(state).opened@), click.name@)
        } else {
            opened_views(old(state).opened@).push(click.name@)
        }),
{
    proof {
        reveal_strlit("yaib-page-up");
        reveal_strlit("yaib-page-down");
        assert("yaib-page-up"@.len() == 12);
        assert("yaib-page-down"@.len() == 14);
        assert("yaib-page-up"@ != "yaib-page-down"@);
    }
    let up: String = "yaib-page-up".to_owned();
    let down: String = "yaib-page-down".to_owned();
    if click.name == up {
        state.advance_page(page_count);
    } else if click.name == down {
        state.retreat_page();
    } else {
        state.toggle_expanded(click.name.clone());
    }
}

} // verus!
