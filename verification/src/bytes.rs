//! Byte-string helpers: URL scheme normalization, whitespace trimming and
//! HTML attribute escaping.
//!
//! All text in this library is carried as UTF-8 byte strings (`Vec<u8>`),
//! so the helpers here work byte by byte.

use vstd::prelude::*;

verus! {

/// The bytes of the string `https:`.
pub open spec fn https_prefix() -> Seq<u8> {
    seq![104u8, 116u8, 116u8, 112u8, 115u8, 58u8]
}

/// A URL is protocol-relative when it starts with two slashes.
pub open spec fn is_protocol_relative(url: Seq<u8>) -> bool {
    url.len() >= 2 && url[0] == 47u8 && url[1] == 47u8
}

/// A protocol-relative URL gains the `https:` scheme; any other URL is
/// left as it is.
pub open spec fn spec_normalize_url(url: Seq<u8>) -> Seq<u8> {
    if is_protocol_relative(url) {
        https_prefix() + url
    } else {
        url
    }
}

/// Rewrite a protocol-relative image URL (`//host/path`) to an absolute
/// `https://host/path` URL; leave every other URL unchanged.
pub fn normalize_image_url(url: Vec<u8>) -> (r: Vec<u8>)
    ensures
        r@ == spec_normalize_url(url@),
{
    if url.len() >= 2 && url[0] == 47u8 && url[1] == 47u8 {
        let mut out: Vec<u8> = Vec::new();
        out.push(104u8);
        out.push(116u8);
        out.push(116u8);
        out.push(112u8);
        out.push(115u8);
        out.push(58u8);
        assert(out@ =~= https_prefix());
        out.extend_from_slice(url.as_slice());
        assert(out@ =~= https_prefix() + url@);
        out
    } else {
        url
    }
}

/// The ASCII whitespace bytes: space, tab, line feed, vertical tab, form
/// feed and carriage return.
pub open spec fn is_space(b: u8) -> bool {
    b == 32 || b == 9 || b == 10 || b == 11 || b == 12 || b == 13
}

/// `s` with its leading whitespace removed.
pub open spec fn spec_trim_front(s: Seq<u8>) -> Seq<u8>
    decreases s.len(),
{
    if s.len() > 0 && is_space(s[0]) {
        spec_trim_front(s.drop_first())
    } else {
        s
    }
}

/// `s` with its trailing whitespace removed.
pub open spec fn spec_trim_back(s: Seq<u8>) -> Seq<u8>
    decreases s.len(),
{
    if s.len() > 0 && is_space(s[s.len() - 1]) {
        spec_trim_back(s.drop_last())
    } else {
        s
    }
}

/// `s` with whitespace removed from both ends.
pub open spec fn spec_trim(s: Seq<u8>) -> Seq<u8> {
    spec_trim_back(spec_trim_front(s))
}

/// Whether a byte is ASCII whitespace.
pub fn is_space_byte(b: u8) -> (r: bool)
    ensures
        r == is_space(b),
{
    b == 32 || b == 9 || b == 10 || b == 11 || b == 12 || b == 13
}

/// Remove ASCII whitespace from both ends of a byte string.
pub fn trim_bytes(s: &Vec<u8>) -> (r: Vec<u8>)
    ensures
        r@ == spec_trim(s@),
{
    let len = s.len();
    proof {
        assert(s@.subrange(0, len as int) =~= s@);
    }
    let mut start: usize = 0;
    while start < len && is_space_byte(s[start])
        invariant
            start <= len,
            len == s@.len(),
            spec_trim_front(s@) == spec_trim_front(s@.subrange(start as int, len as int)),
        decreases len - start,
    {
        proof {
            let tail = s@.subrange(start as int, len as int);
            assert(tail.drop_first() =~= s@.subrange(start as int + 1, len as int));
        }
        start = start + 1;
    }
    proof {
        let tail = s@.subrange(start as int, len as int);
        if start < len {
            assert(spec_trim_front(tail) == tail);
        } else {
            assert(tail =~= Seq::<u8>::empty());
        }
        assert(spec_trim_front(s@) == s@.subrange(start as int, len as int));
    }
    let mut end: usize = len;
    while end > start && is_space_byte(s[end - 1])
        invariant
            start <= end <= len,
            len == s@.len(),
            spec_trim_front(s@) == s@.subrange(start as int, len as int),
            spec_trim_back(s@.subrange(start as int, len as int)) == spec_trim_back(
                s@.subrange(start as int, end as int),
            ),
        decreases end,
    {
        proof {
            let part = s@.subrange(start as int, end as int);
            assert(part.drop_last() =~= s@.subrange(start as int, end as int - 1));
        }
        end = end - 1;
    }
    proof {
        let part = s@.subrange(start as int, end as int);
        if end > start {
            assert(spec_trim_back(part) == part);
        } else {
            assert(part =~= Seq::<u8>::empty());
        }
        assert(spec_trim(s@) == s@.subrange(start as int, end as int));
    }
    let out = vstd::slice::slice_to_vec(vstd::slice::slice_subrange(s.as_slice(), start, end));
    assert(out@ =~= spec_trim(s@));
    out
}

/// The bytes of `&amp;`.
pub open spec fn amp_entity() -> Seq<u8> {
    seq![38u8, 97u8, 109u8, 112u8, 59u8]
}

/// The bytes of `&lt;`.
pub open spec fn lt_entity() -> Seq<u8> {
    seq![38u8, 108u8, 116u8, 59u8]
}

/// The bytes of `&gt;`.
pub open spec fn gt_entity() -> Seq<u8> {
    seq![38u8, 103u8, 116u8, 59u8]
}

/// The bytes of `&quot;`.
pub open spec fn quot_entity() -> Seq<u8> {
    seq![38u8, 113u8, 117u8, 111u8, 116u8, 59u8]
}

/// The bytes of `&#39;`.
pub open spec fn apos_entity() -> Seq<u8> {
    seq![38u8, 35u8, 51u8, 57u8, 59u8]
}

/// How one byte is escaped inside an HTML attribute value: the five
/// attribute-unsafe bytes become entities, every other byte stands as it is.
pub open spec fn escape_byte(b: u8) -> Seq<u8> {
    if b == 38 {
        amp_entity()
    } else if b == 60 {
        lt_entity()
    } else if b == 62 {
        gt_entity()
    } else if b == 34 {
        quot_entity()
    } else if b == 39 {
        apos_entity()
    } else {
        seq![b]
    }
}

/// The HTML attribute escaping of a byte string, byte by byte.
pub open spec fn spec_escape(s: Seq<u8>) -> Seq<u8>
    decreases s.len(),
{
    if s.len() == 0 {
        Seq::empty()
    } else {
        escape_byte(s[0]) + spec_escape(s.drop_first())
    }
}

/// Escaping distributes over appending one byte at the back.
pub proof fn lemma_escape_snoc(s: Seq<u8>, b: u8)
    ensures
        spec_escape(s.push(b)) == spec_escape(s) + escape_byte(b),
    decreases s.len(),
{
    if s.len() == 0 {
        assert(s.push(b)[0] == b);
        assert(s.push(b).drop_first() =~= Seq::<u8>::empty());
        assert(spec_escape(s.push(b)) == escape_byte(b) + spec_escape(Seq::<u8>::empty()));
        assert(spec_escape(Seq::<u8>::empty()) == Seq::<u8>::empty());
        assert(escape_byte(b) + Seq::<u8>::empty() =~= escape_byte(b));
        assert(spec_escape(s) == Seq::<u8>::empty());
        assert(Seq::<u8>::empty() + escape_byte(b) =~= escape_byte(b));
    } else {
        assert(s.push(b).drop_first() =~= s.drop_first().push(b));
        lemma_escape_snoc(s.drop_first(), b);
        assert(s.push(b)[0] == s[0]);
        assert(spec_escape(s.push(b)) == escape_byte(s[0]) + spec_escape(s.drop_first().push(b)));
        assert(spec_escape(s) == escape_byte(s[0]) + spec_escape(s.drop_first()));
        vstd::seq_lib::lemma_concat_associative(
            escape_byte(s[0]),
            spec_escape(s.drop_first()),
            escape_byte(b),
        );
        assert(spec_escape(s.push(b)) == spec_escape(s) + escape_byte(b));
    }
}

/// Append the escaping of one byte to `out`.
fn push_escaped_byte(out: &mut Vec<u8>, b: u8)
    ensures
        final(out)@ == old(out)@ + escape_byte(b),
{
    if b == 38 {
        out.push(38u8);
        out.push(97u8);
        out.push(109u8);
        out.push(112u8);
        out.push(59u8);
        assert(out@ =~= old(out)@ + escape_byte(b));
    } else if b == 60 {
        out.push(38u8);
        out.push(108u8);
        out.push(116u8);
        out.push(59u8);
        assert(out@ =~= old(out)@ + escape_byte(b));
    } else if b == 62 {
        out.push(38u8);
        out.push(103u8);
        out.push(116u8);
        out.push(59u8);
        assert(out@ =~= old(out)@ + escape_byte(b));
    } else if b == 34 {
        out.push(38u8);
        out.push(113u8);
        out.push(117u8);
        out.push(111u8);
        out.push(116u8);
        out.push(59u8);
        assert(out@ =~= old(out)@ + escape_byte(b));
    } else if b == 39 {
        out.push(38u8);
        out.push(35u8);
        out.push(51u8);
        out.push(57u8);
        out.push(59u8);
        assert(out@ =~= old(out)@ + escape_byte(b));
    } else {
        out.push(b);
        assert(out@ =~= old(out)@ + escape_byte(b));
    }
}

/// Escape a byte string for use inside an HTML attribute value.
pub fn escape_attr(s: &Vec<u8>) -> (r: Vec<u8>)
    ensures
        r@ == spec_escape(s@),
{
    let mut out: Vec<u8> = Vec::new();
    let mut i: usize = 0;
    while i < s.len()
        invariant
            i <= s@.len(),
            out@ == spec_escape(s@.subrange(0, i as int)),
        decreases s@.len() - i,
    {
        proof {
            lemma_escape_snoc(s@.subrange(0, i as int), s@[i as int]);
            assert(s@.subrange(0, i as int).push(s@[i as int]) =~= s@.subrange(0, i as int + 1));
        }
        push_escaped_byte(&mut out, s[i]);
        i = i + 1;
    }
    proof {
        assert(s@.subrange(0, s@.len() as int) =~= s@);
    }
    out
}


/// Copy a byte string.
pub fn copy_bytes(v: &Vec<u8>) -> (r: Vec<u8>)
    ensures
        r@ == v@,
{
    vstd::slice::slice_to_vec(v.as_slice())
}

} // verus!
