//! Format strings with `%` directives, such as `%f | %i/%n`.
//!
//! A `%` followed by a character that the formatted value recognizes is
//! replaced by what the value writes for it; `%%` and any other text are kept
//! as they are.
use vstd::prelude::*;

use crate::text::push_char;

verus! {

/// A value that can fill in `%` directives.
pub trait PercentFormatable {
    /// What the directive at the start of `rest` (the text after a `%`)
    /// writes, and how many characters after its first one it takes; `None`
    /// where `rest` starts no directive.
    spec fn directive(&self, rest: Seq<char>) -> Option<(Seq<char>, nat)>;

    /// Writes what the directive at the start of `rest` stands for, and
    /// returns how many characters after its first one it takes.
    fn try_parse(&self, rest: &str, w: &mut String) -> (r: Option<usize>)
        requires
            rest@.len() > 0,
        ensures
            match self.directive(rest@) {
                Some((out, k)) => k < rest@.len() && r == Some(k as usize) && final(w)@ == old(w)@
                    + out,
                None => r is None && final(w)@ == old(w)@,
            },
    ;
}

/// `fmt` with its directives filled in by `p`.
pub open spec fn rendered<P: PercentFormatable>(p: &P, fmt: Seq<char>) -> Seq<char>
    decreases fmt.len(),
{
    if fmt.len() == 0 {
        Seq::empty()
    } else if fmt[0] == '%' && fmt.len() >= 2 && fmt[1] == '%' {
        seq!['%', '%'] + rendered(p, fmt.skip(2))
    } else {
        let plain = seq![fmt[0]] + rendered(p, fmt.skip(1));
        if fmt[0] == '%' && fmt.len() >= 2 {
            match p.directive(fmt.skip(1)) {
                Some((out, k)) => if k + 2 <= fmt.len() {
                    out + rendered(p, fmt.skip(k + 2 as int))
                } else {
                    plain
                },
                None => plain,
            }
        } else {
            plain
        }
    }
}

/// Appends `fmt` to `w` with its directives filled in by `p`.
pub fn percent_format<P: PercentFormatable>(fmt: &str, w: &mut String, p: &P)
    ensures
        final(w)@ == old(w)@ + rendered(p, fmt@),
{
    let n = fmt.unicode_len();
    let mut i: usize = 0;
    assert(fmt@.skip(0) =~= fmt@);
    while i < n
        invariant
            n == fmt@.len(),
            0 <= i <= n,
            old(w)@ + rendered(p, fmt@) == w@ + rendered(p, fmt@.skip(i as int)),
        decreases n - i,
    {
        let ghost tail = fmt@.skip(i as int);
        let c = fmt.get_char(i);
        if c == '%' && i + 1 < n {
            let c1 = fmt.get_char(i + 1);
            if c1 == '%' {
                assert(tail.len() >= 2 && tail[0] == '%' && tail[1] == '%');
                push_char(w, '%');
                push_char(w, '%');
                assert(tail.skip(2) =~= fmt@.skip(i + 2));
                i = i + 2;
                continue;
            }
            let rest = fmt.substring_char(i + 1, n);
            assert(rest@ =~= tail.skip(1));
            assert(tail.len() >= 2 && tail[0] == '%' && tail[1] != '%');
            let ghost w0 = w@;
            match p.try_parse(rest, w) {
                Some(k) => {
                    proof {
                        match p.directive(rest@) {
                            Some((out, kk)) => {
                                assert(rendered(p, tail) == out + rendered(
                                    p,
                                    tail.skip(kk + 2 as int),
                                ));
                                assert((w0 + out) + rendered(p, tail.skip(kk + 2 as int)) =~= w0
                                    + (out + rendered(p, tail.skip(kk + 2 as int))));
                            },
                            None => {},
                        }
                    }
                    assert(tail.skip(k + 2) =~= fmt@.skip(i + 2 + k));
                    i = i + 2 + k;
                    continue;
                },
                None => {},
            }
        }
        assert(tail[0] == c);
        push_char(w, c);
        assert(tail.skip(1) =~= fmt@.skip(i + 1));
        i = i + 1;
    }
}

/// A format string with a buffer that the formatted text is kept in.
#[derive(Debug)]
pub struct PercentFormatBuf {
    buf: String,
    format_str: String,
}

impl PercentFormatBuf {
    /// The format string.
    pub closed spec fn format_text(&self) -> Seq<char> {
        self.format_str@
    }

    /// A buffer for the format string `format`.
    pub fn new(format: &str) -> (r: Self)
        ensures
            r.format_text() == format@,
    {
        PercentFormatBuf { buf: String::new(), format_str: format.to_owned() }
    }

    /// The format string with its directives filled in by `p`.
    pub fn format<P: PercentFormatable>(&mut self, p: &P) -> (r: &str)
        ensures
            r@ == rendered(p, old(self).format_text()),
            final(self).format_text() == old(self).format_text(),
    {
        self.buf = String::new();
        percent_format(self.format_str.as_str(), &mut self.buf, p);
        self.buf.as_str()
    }
}

} // verus!
