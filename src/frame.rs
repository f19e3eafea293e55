use vstd::prelude::*;

verus! {

/// Bytes of a leading tag header: magic, version, flags and size.
pub const TAG_HEADER_LEN: usize = 10;

/// A read was cut short: the stream ended before the bytes it needed.
#[derive(Debug, PartialEq, Eq)]
pub struct ShortRead;

/// A read cursor over the bytes of an audio file.
#[derive(Debug)]
pub struct ByteCursor {
    data: Vec<u8>,
    pos: usize,
}

/// Whether the bytes at `p` open a leading "ID3" tag.
pub open spec fn has_tag_magic(d: Seq<u8>, p: int) -> bool {
    &&& p + 3 <= d.len()
    &&& d[p] == 0x49
    &&& d[p + 1] == 0x44
    &&& d[p + 2] == 0x33
}

/// The tag body length that the header at `p` declares: four bytes, big
/// endian, seven bits each (each byte's high bit ignored).
pub open spec fn declared_tag_size(d: Seq<u8>, p: int) -> int {
    (d[p + 6] % 128) as int * 0x20_0000 + (d[p + 7] % 128) as int * 0x4000 + (d[p + 8] % 128) as int
        * 0x80 + (d[p + 9] % 128) as int
}

/// Where skipping a leading tag from `p` leaves the cursor: past the header
/// and the body it declares when a tag is there, at `p` when none is; `None`
/// when the header or the declared body runs past the end.
pub open spec fn after_leading_tag(d: Seq<u8>, p: int) -> Option<int> {
    if d.len() - p < TAG_HEADER_LEN {
        None
    } else if has_tag_magic(d, p) {
        if p + TAG_HEADER_LEN + declared_tag_size(d, p) <= d.len() {
            Some(p + TAG_HEADER_LEN + declared_tag_size(d, p))
        } else {
            None
        }
    } else {
        Some(p)
    }
}

/// Whether an 11-bit frame sync starts at `i`: a byte 0xFF followed by one
/// whose top three bits are all set.
pub open spec fn sync_at(d: Seq<u8>, i: int) -> bool {
    &&& 0 <= i
    &&& i + 1 < d.len()
    &&& d[i] == 0xFF
    &&& d[i + 1] >= 0xE0
}

impl ByteCursor {
    #[verifier::type_invariant]
    spec fn within(&self) -> bool {
        self.pos <= self.data.len()
    }

    /// The bytes under the cursor.
    pub closed spec fn bytes(&self) -> Seq<u8> {
        self.data@
    }

    /// Index of the next byte to read.
    pub closed spec fn at(&self) -> int {
        self.pos as int
    }

    /// A cursor at the start of `data`.
    pub fn new(data: Vec<u8>) -> (r: ByteCursor)
        ensures
            r.bytes() == data@,
            r.at() == 0,
    {
        ByteCursor { data, pos: 0 }
    }

    /// Index of the next byte to read.
    pub fn position(&self) -> (r: usize)
        ensures
            r == self.at(),
    {
        self.pos
    }

    /// Bytes left to read.
    pub fn remaining(&self) -> (r: usize)
        ensures
            r == self.bytes().len() - self.at(),
    {
        proof {
            use_type_invariant(self);
        }
        self.data.len() - self.pos
    }

    /// Reads up to `max` bytes: fewer only where the data ends, none at the
    /// end.
    pub fn read_chunk(&mut self, max: usize) -> (r: Vec<u8>)
        ensures
            ({
                let end = if old(self).at() + max <= old(self).bytes().len() {
                    old(self).at() + max
                } else {
                    old(self).bytes().len() as int
                };
                &&& r@ == old(self).bytes().subrange(old(self).at(), end)
                &&& final(self).at() == end
                &&& final(self).bytes() == old(self).bytes()
            }),
    {
        proof {
            use_type_invariant(&*self);
        }
        let start = self.pos;
        let left = self.data.len() - start;
        let take = if max <= left { max } else { left };
        let mut out: Vec<u8> = Vec::with_capacity(take);
        let len = self.data.len();
        let mut i: usize = 0;
        while i < take
            invariant
                len == self.data@.len(),
                start + take <= len,
                i <= take,
                out@ == self.data@.subrange(start as int, start + i),
            decreases take - i,
        {
            out.push(self.data[start + i]);
            proof {
                assert(self.data@.subrange(start as int, start + i + 1) == self.data@.subrange(
                    start as int,
                    start + i,
                ).push(self.data@[start + i]));
            }
            i = i + 1;
        }
        self.pos = start + take;
        out
    }
}

/// Skips a leading "ID3" tag: reads the fixed header and, where it carries the
/// tag magic, the body length it declares. Leaves the cursor past the tag, or
/// where it was when no tag is there. Fails with `ShortRead`, the cursor left
/// where it was, when the header or the declared body runs past the end.
pub fn skip_id3_tags(reader: &mut ByteCursor) -> (r: Result<(), ShortRead>)
    ensures
        final(reader).bytes() == old(reader).bytes(),
        r.is_ok() <==> after_leading_tag(old(reader).bytes(), old(reader).at()).is_some(),
        r.is_ok() ==> final(reader).at() == after_leading_tag(
            old(reader).bytes(),
            old(reader).at(),
        ).unwrap(),
        r.is_err() ==> final(reader).at() == old(reader).at(),
{
    proof {
        use_type_invariant(&*reader);
    }
    let p = reader.pos;
    let len = reader.data.len();
    if len - p < TAG_HEADER_LEN {
        return Err(ShortRead);
    }
    let d = &reader.data;
    if d[p] == 0x49 && d[p + 1] == 0x44 && d[p + 2] == 0x33 {
        let size: usize = (d[p + 6] % 128) as usize * 0x20_0000 + (d[p + 7] % 128) as usize * 0x4000
            + (d[p + 8] % 128) as usize * 0x80 + (d[p + 9] % 128) as usize;
        if size > len - p - TAG_HEADER_LEN {
            return Err(ShortRead);
        }
        reader.pos = p + TAG_HEADER_LEN + size;
    }
    Ok(())
}

/// Moves the cursor to the first frame sync at or after it, so that the sync
/// bytes are the next to read. Fails with `ShortRead`, the cursor left where
/// it was, when the data holds no sync from the cursor on.
pub fn find_mp3_sync_word(reader: &mut ByteCursor) -> (r: Result<(), ShortRead>)
    ensures
        final(reader).bytes() == old(reader).bytes(),
        r.is_ok() <==> exists|i: int| old(reader).at() <= i && #[trigger] sync_at(old(reader).bytes(), i),
        r.is_ok() ==> {
            &&& old(reader).at() <= final(reader).at()
            &&& sync_at(old(reader).bytes(), final(reader).at())
            &&& forall|j: int|
                old(reader).at() <= j < final(reader).at() ==> !#[trigger] sync_at(
                    old(reader).bytes(),
                    j,
                )
        },
        r.is_err() ==> final(reader).at() == old(reader).at(),
{
    proof {
        use_type_invariant(&*reader);
    }
    let start = reader.pos;
    let len = reader.data.len();
    let mut i: usize = start;
    let mut found = false;
    while !found && len - i > 1
        invariant
            start <= i <= len,
            len == reader.data@.len(),
            reader.data@ == old(reader).data@,
            reader.pos == start,
            found ==> sync_at(reader.data@, i as int),
            forall|j: int| start <= j < i ==> !#[trigger] sync_at(reader.data@, j),
        decreases len - i, if found { 0int } else { 1int },
    {
        if reader.data[i] == 0xFF && reader.data[i + 1] >= 0xE0 {
            found = true;
        } else {
            i = i + 1;
        }
    }
    if found {
        reader.pos = i;
        return Ok(());
    }
    assert forall|j: int| start <= j implies !#[trigger] sync_at(reader.data@, j) by {
        if j >= i {
            assert(j + 1 >= len);
        }
    }
    Err(ShortRead)
}

} // verus!
