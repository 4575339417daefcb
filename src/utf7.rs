//! Modified UTF-7 (RFC 3501, section 5.1.3), the encoding of mailbox names
//! in IMAP4rev1, decoded to UTF-8.
use vstd::prelude::*;
use crate::bytes::take_all;

verus! {

pub const AMPERSAND: u8 = 38;

pub const MINUS: u8 = 45;

/// The value of a digit of modified base64, where `,` takes the place of `/`.
pub open spec fn b64_value(b: u8) -> Option<u32> {
    if 65 <= b <= 90 {
        Some((b - 65) as u32)
    } else if 97 <= b <= 122 {
        Some((b - 71) as u32)
    } else if 48 <= b <= 57 {
        Some((b + 4) as u32)
    } else if b == 43 {
        Some(62)
    } else if b == 44 {
        Some(63)
    } else {
        None
    }
}

/// The UTF-8 encoding of a code point.
pub open spec fn utf8_of(cp: u32) -> Seq<u8> {
    if cp < 0x80 {
        seq![cp as u8]
    } else if cp < 0x800 {
        seq![(0xC0u32 | (cp >> 6u32)) as u8, (0x80u32 | (cp & 0x3Fu32)) as u8]
    } else if cp < 0x10000 {
        seq![
            (0xE0u32 | (cp >> 12u32)) as u8,
            (0x80u32 | ((cp >> 6u32) & 0x3Fu32)) as u8,
            (0x80u32 | (cp & 0x3Fu32)) as u8,
        ]
    } else {
        seq![
            (0xF0u32 | (cp >> 18u32)) as u8,
            (0x80u32 | ((cp >> 12u32) & 0x3Fu32)) as u8,
            (0x80u32 | ((cp >> 6u32) & 0x3Fu32)) as u8,
            (0x80u32 | (cp & 0x3Fu32)) as u8,
        ]
    }
}

/// Decoding state after a prefix of the input.
pub struct Utf7State {
    pub out: Seq<u8>,
    /// Inside a `&...-` run of base64.
    pub shifted: bool,
    /// No base64 digit has come since the `&`.
    pub empty_shift: bool,
    /// The last base64 bits received, of which the lowest `nbits` are not decoded yet.
    pub bits: u32,
    pub nbits: u32,
    /// A high surrogate waiting for its low half, or 0.
    pub high: u32,
    pub bad: bool,
}

pub open spec fn utf7_start() -> Utf7State {
    Utf7State {
        out: Seq::empty(),
        shifted: false,
        empty_shift: false,
        bits: 0,
        nbits: 0,
        high: 0,
        bad: false,
    }
}

/// One UTF-16 code unit decoded from the base64 run.
pub open spec fn utf7_unit(st: Utf7State, unit: u32) -> Utf7State {
    if st.high != 0 {
        if 0xDC00 <= unit <= 0xDFFF {
            Utf7State {
                out: st.out + utf8_of(
                    (0x10000 + (st.high - 0xD800) * 1024 + (unit - 0xDC00)) as u32,
                ),
                high: 0,
                ..st
            }
        } else {
            Utf7State { bad: true, ..st }
        }
    } else if 0xD800 <= unit <= 0xDBFF {
        Utf7State { high: unit, ..st }
    } else if 0xDC00 <= unit <= 0xDFFF {
        Utf7State { bad: true, ..st }
    } else {
        Utf7State { out: st.out + utf8_of(unit), ..st }
    }
}

/// The effect of one input byte.
pub open spec fn utf7_step(st: Utf7State, b: u8) -> Utf7State {
    if st.bad {
        st
    } else if !st.shifted {
        if b == AMPERSAND {
            Utf7State { shifted: true, empty_shift: true, bits: 0, nbits: 0, ..st }
        } else {
            Utf7State { out: st.out.push(b), ..st }
        }
    } else if b == MINUS {
        if st.high != 0 {
            Utf7State { bad: true, ..st }
        } else if st.empty_shift {
            Utf7State { out: st.out.push(AMPERSAND), shifted: false, ..st }
        } else {
            Utf7State { shifted: false, ..st }
        }
    } else {
        match b64_value(b) {
            None => Utf7State { bad: true, ..st },
            Some(v) => {
                let bits = (st.bits << 6u32) | v;
                let n = st.nbits + 6;
                if n >= 16 {
                    let rest = (n - 16) as u32;
                    utf7_unit(
                        Utf7State { bits, nbits: rest, empty_shift: false, ..st },
                        (bits >> rest) & 0xFFFFu32,
                    )
                } else {
                    Utf7State { bits, nbits: n as u32, empty_shift: false, ..st }
                }
            },
        }
    }
}

pub open spec fn utf7_run(s: Seq<u8>) -> Utf7State
    decreases s.len(),
{
    if s.len() == 0 {
        utf7_start()
    } else {
        utf7_step(utf7_run(s.drop_last()), s.last())
    }
}

/// The UTF-8 text that a modified UTF-7 name stands for; `None` where it is
/// malformed (a byte outside base64 in a run, a lone surrogate, an open run).
pub open spec fn utf7_decoded(s: Seq<u8>) -> Option<Seq<u8>> {
    let st = utf7_run(s);
    if st.bad || st.shifted {
        None
    } else {
        Some(st.out)
    }
}

pub open spec fn state_ok(st: Utf7State) -> bool {
    &&& st.nbits < 16
    &&& st.high == 0 || 0xD800 <= st.high <= 0xDBFF
}

struct Utf7Decoder {
    out: Vec<u8>,
    shifted: bool,
    empty_shift: bool,
    bits: u32,
    nbits: u32,
    high: u32,
    bad: bool,
}

impl Utf7Decoder {
    spec fn model(&self) -> Utf7State {
        Utf7State {
            out: self.out@,
            shifted: self.shifted,
            empty_shift: self.empty_shift,
            bits: self.bits,
            nbits: self.nbits,
            high: self.high,
            bad: self.bad,
        }
    }

    fn push_code_point(&mut self, cp: u32)
        ensures
            final(self).model() == (Utf7State { out: old(self).model().out + utf8_of(cp), ..old(self).model() }),
    {
        if cp < 0x80 {
            self.out.push(cp as u8);
        } else if cp < 0x800 {
            self.out.push((0xC0u32 | (cp >> 6u32)) as u8);
            self.out.push((0x80u32 | (cp & 0x3Fu32)) as u8);
        } else if cp < 0x10000 {
            self.out.push((0xE0u32 | (cp >> 12u32)) as u8);
            self.out.push((0x80u32 | ((cp >> 6u32) & 0x3Fu32)) as u8);
            self.out.push((0x80u32 | (cp & 0x3Fu32)) as u8);
        } else {
            self.out.push((0xF0u32 | (cp >> 18u32)) as u8);
            self.out.push((0x80u32 | ((cp >> 12u32) & 0x3Fu32)) as u8);
            self.out.push((0x80u32 | ((cp >> 6u32) & 0x3Fu32)) as u8);
            self.out.push((0x80u32 | (cp & 0x3Fu32)) as u8);
        }
        assert(self.out@ =~= old(self).out@ + utf8_of(cp));
    }

    fn unit(&mut self, unit: u32)
        requires
            state_ok(old(self).model()),
        ensures
            final(self).model() == utf7_unit(old(self).model(), unit),
            state_ok(final(self).model()),
    {
        if self.high != 0 {
            if 0xDC00 <= unit && unit <= 0xDFFF {
                let cp = 0x10000 + (self.high - 0xD800) * 1024 + (unit - 0xDC00);
                self.push_code_point(cp);
                self.high = 0;
            } else {
                self.bad = true;
            }
        } else if 0xD800 <= unit && unit <= 0xDBFF {
            self.high = unit;
        } else if 0xDC00 <= unit && unit <= 0xDFFF {
            self.bad = true;
        } else {
            self.push_code_point(unit);
        }
    }

    fn step(&mut self, b: u8)
        requires
            state_ok(old(self).model()),
        ensures
            final(self).model() == utf7_step(old(self).model(), b),
            state_ok(final(self).model()),
    {
        if self.bad {
        } else if !self.shifted {
            if b == AMPERSAND {
                self.shifted = true;
                self.empty_shift = true;
                self.bits = 0;
                self.nbits = 0;
            } else {
                self.out.push(b);
            }
        } else if b == MINUS {
            if self.high != 0 {
                self.bad = true;
            } else if self.empty_shift {
                self.out.push(AMPERSAND);
                self.shifted = false;
            } else {
                self.shifted = false;
            }
        } else {
            let v: Option<u32> = if 65 <= b && b <= 90 {
                Some((b - 65) as u32)
            } else if 97 <= b && b <= 122 {
                Some((b - 71) as u32)
            } else if 48 <= b && b <= 57 {
                Some((b + 4) as u32)
            } else if b == 43 {
                Some(62)
            } else if b == 44 {
                Some(63)
            } else {
                None
            };
            match v {
                None => {
                    self.bad = true;
                },
                Some(v) => {
                    let bits = (self.bits << 6u32) | v;
                    let n = self.nbits + 6;
                    self.bits = bits;
                    self.empty_shift = false;
                    if n >= 16 {
                        let rest = n - 16;
                        self.nbits = rest;
                        self.unit((bits >> rest) & 0xFFFFu32);
                    } else {
                        self.nbits = n;
                    }
                },
            }
        }
    }
}

/// Decodes a mailbox name from modified UTF-7 into UTF-8.
pub fn utf7_decode(name: &[u8]) -> (r: Option<Vec<u8>>)
    ensures
        match utf7_decoded(name@) {
            Some(t) => r is Some && r->Some_0@ == t,
            None => r is None,
        },
{
    let mut d = Utf7Decoder {
        out: Vec::new(),
        shifted: false,
        empty_shift: false,
        bits: 0,
        nbits: 0,
        high: 0,
        bad: false,
    };
    let mut i: usize = 0;
    while i < name.len()
        invariant
            i <= name@.len(),
            state_ok(d.model()),
            d.model() == utf7_run(name@.take(i as int)),
        decreases name@.len() - i,
    {
        proof {
            assert(name@.take(i + 1).drop_last() =~= name@.take(i as int));
        }
        d.step(name[i]);
        i = i + 1;
    }
    assert(name@.take(i as int) =~= name@);
    if d.bad || d.shifted {
        None
    } else {
        Some(take_all(&mut d.out))
    }
}

} // verus!
