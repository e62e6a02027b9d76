//! What the status line tells about the image shown.
use vstd::prelude::*;

use crate::humane_bytes::{humane_text, HumaneBytes};
use crate::percent_formatter::PercentFormatable;
use vstd::string::StringExecFns;

use crate::text::{decimal, push_char, push_decimal};

verus! {

/// `v` in decimal, with a leading `-` when negative.
pub open spec fn signed_decimal(v: int) -> Seq<char> {
    if v < 0 {
        seq!['-'] + decimal((-v) as nat)
    } else {
        decimal(v as nat)
    }
}

fn push_signed(s: &mut String, v: i32)
    ensures
        final(s)@ == old(s)@ + signed_decimal(v as int),
{
    if v < 0 {
        push_char(s, '-');
        push_decimal(s, (-(v as i64)) as u64);
        assert(s@ =~= old(s)@ + signed_decimal(v as int));
    } else {
        push_decimal(s, v as u64);
    }
}

/// The facts about the shown image that a status line can hold: `%f` the file
/// name, `%d` the dimensions, `%i` the position (from 1), `%n` the number of
/// entries, `%s` the file size, `%z` the zoom.
#[derive(Debug)]
pub struct ImageInfo {
    pub filename: String,
    pub image_index: usize,
    pub nimages: usize,
    pub dims: (i32, i32),
    pub file_size: String,
    pub zoom: String,
}

impl ImageInfo {
    /// The facts about the entry at position `image_index` (from 0) of
    /// `nimages`, with the file size written for people.
    pub fn new(
        filename: &str,
        dims: (i32, i32),
        file_size: u64,
        zoom: String,
        image_index: usize,
        nimages: usize,
    ) -> (r: ImageInfo)
        requires
            image_index < usize::MAX,
        ensures
            r.filename@ == filename@,
            r.dims == dims,
            r.file_size@ == humane_text(file_size as nat),
            r.zoom == zoom,
            r.image_index == image_index + 1,
            r.nimages == nimages,
    {
        ImageInfo {
            filename: filename.to_owned(),
            image_index: image_index + 1,
            nimages,
            dims,
            file_size: HumaneBytes(file_size).to_string(),
            zoom,
        }
    }
}

impl PercentFormatable for ImageInfo {
    open spec fn directive(&self, rest: Seq<char>) -> Option<(Seq<char>, nat)> {
        if rest.len() == 0 {
            None
        } else if rest[0] == 'f' {
            Some((self.filename@, 0))
        } else if rest[0] == 'd' {
            Some(
                (
                    signed_decimal(self.dims.0 as int) + seq!['x'] + signed_decimal(
                        self.dims.1 as int,
                    ),
                    0,
                ),
            )
        } else if rest[0] == 'i' {
            Some((decimal(self.image_index as nat), 0))
        } else if rest[0] == 'n' {
            Some((decimal(self.nimages as nat), 0))
        } else if rest[0] == 's' {
            Some((self.file_size@, 0))
        } else if rest[0] == 'z' {
            Some((self.zoom@, 0))
        } else {
            None
        }
    }

    fn try_parse(&self, rest: &str, w: &mut String) -> (r: Option<usize>) {
        let c = rest.get_char(0);
        if c == 'f' {
            w.append(self.filename.as_str());
        } else if c == 'd' {
            push_signed(w, self.dims.0);
            push_char(w, 'x');
            push_signed(w, self.dims.1);
            assert(w@ =~= old(w)@ + (signed_decimal(self.dims.0 as int) + seq!['x']
                + signed_decimal(self.dims.1 as int)));
        } else if c == 'i' {
            push_decimal(w, self.image_index as u64);
        } else if c == 'n' {
            push_decimal(w, self.nimages as u64);
        } else if c == 's' {
            w.append(self.file_size.as_str());
        } else if c == 'z' {
            w.append(self.zoom.as_str());
        } else {
            return None;
        }
        Some(0)
    }
}

} // verus!
