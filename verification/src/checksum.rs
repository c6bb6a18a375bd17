//! The checksum of an ordered list of files.
//!
//! The paths and contents are fed, in the order of the list, to the standard
//! library's default hasher. Each string goes in as its UTF-8 bytes followed
//! by one byte that no UTF-8 text holds, so that the bytes fed tell where one
//! string ends and the next begins.

use crate::sourced_file::{texts, FileText, SourcedFile};
use std::collections::hash_map::DefaultHasher;
use std::hash::Hasher;
use vstd::prelude::*;
use vstd::std_specs::hash::DefaultHasherAdditionalSpecFns;
use vstd::utf8::*;

verus! {

/// The byte that closes each string fed to the hasher.
pub const TERMINATOR: u8 = 0xff;

/// The bytes that stand for one string: its UTF-8 encoding, then the
/// terminator.
pub open spec fn terminated(s: Seq<char>) -> Seq<u8> {
    encode_utf8(s).push(TERMINATOR)
}

/// The writes made so far, and then those for the string `s`.
pub open spec fn with_string(writes: Seq<Seq<u8>>, s: Seq<char>) -> Seq<Seq<u8>> {
    writes.push(encode_utf8(s)).push(seq![TERMINATOR])
}

/// The writes that the hasher receives for `files`: for each file in turn
/// its path, then its content.
pub open spec fn writes_of(files: Seq<FileText>) -> Seq<Seq<u8>>
    decreases files.len(),
{
    if files.len() == 0 {
        Seq::empty()
    } else {
        with_string(
            with_string(writes_of(files.drop_last()), files.last().path),
            files.last().content,
        )
    }
}

/// All the bytes that the hasher receives for `files`, as one stream.
pub open spec fn stream_of(files: Seq<FileText>) -> Seq<u8>
    decreases files.len(),
{
    if files.len() == 0 {
        Seq::empty()
    } else {
        stream_of(files.drop_last()) + terminated(files.last().path) + terminated(
            files.last().content,
        )
    }
}

/// The checksum of `files`: what the default hasher makes of the writes for
/// them.
pub open spec fn checksum_of(files: Seq<FileText>) -> u64 {
    DefaultHasher::spec_finish(writes_of(files))
}

/// Feeds one string to the hasher.
fn feed(hasher: &mut DefaultHasher, s: &str)
    ensures
        final(hasher)@ == with_string(old(hasher)@, s@),
{
    hasher.write(s.as_bytes());
    let end: [u8; 1] = [TERMINATOR];
    hasher.write(end.as_slice());
    assert(end@ =~= seq![TERMINATOR]);
}

/// Computes the checksum of `source_files`. It depends on every path, every
/// content and the order of the files, and on nothing else.
pub fn calculate_checksum(source_files: &[SourcedFile]) -> (checksum: u64)
    ensures
        checksum == checksum_of(texts(source_files@)),
{
    let mut hasher = DefaultHasher::new();
    let mut i: usize = 0;
    while i < source_files.len()
        invariant
            i <= source_files@.len(),
            hasher@ == writes_of(texts(source_files@).take(i as int)),
        decreases source_files@.len() - i,
    {
        let file = &source_files[i];
        feed(&mut hasher, file.path);
        feed(&mut hasher, file.content);
        i = i + 1;
        proof {
            let done = texts(source_files@).take(i as int);
            assert(done.drop_last() =~= texts(source_files@).take(i - 1));
            assert(done.last() == file@);
        }
    }
    assert(texts(source_files@).take(i as int) =~= texts(source_files@));
    hasher.finish()
}

/// The writes for `files`, laid end to end, are the stream for `files`.
pub proof fn lemma_writes_flatten(files: Seq<FileText>)
    ensures
        writes_of(files).flatten() == stream_of(files),
    decreases files.len(),
{
    broadcast use Seq::lemma_flatten_push;

    if files.len() == 0 {
        assert(writes_of(files).flatten() =~= stream_of(files));
    } else {
        lemma_writes_flatten(files.drop_last());
        assert(writes_of(files).flatten() =~= stream_of(files));
    }
}

/// Equal lists of files, in the same order, have the same checksum.
pub proof fn lemma_checksum_deterministic(first: Seq<SourcedFile>, second: Seq<SourcedFile>)
    requires
        texts(first) == texts(second),
    ensures
        checksum_of(texts(first)) == checksum_of(texts(second)),
{
}

/// Whether `bytes` holds the terminator nowhere.
spec fn free_of_terminator(bytes: Seq<u8>) -> bool {
    forall|i: int| 0 <= i < bytes.len() ==> #[trigger] bytes[i] != TERMINATOR
}

/// Whether `bytes` is empty or ends with the terminator.
spec fn closed(bytes: Seq<u8>) -> bool {
    bytes.len() == 0 || bytes.last() == TERMINATOR
}

/// No byte of a UTF-8 encoding is the terminator.
pub proof fn lemma_utf8_has_no_terminator(s: Seq<char>)
    ensures
        forall|i: int|
            0 <= i < encode_utf8(s).len() ==> #[trigger] encode_utf8(s)[i] != TERMINATOR,
    decreases s.len(),
{
    if s.len() > 0 {
        let scalar = s[0] as u32;
        let head = encode_scalar(scalar);
        let tail = encode_utf8(s.drop_first());
        lemma_utf8_has_no_terminator(s.drop_first());
        assert(free_of_terminator(head)) by {
            assert((scalar & 0x7F) as u8 != 0xff) by (bit_vector);
            assert(0xC0 | ((scalar >> 6) & 0x1F) as u8 != 0xff) by (bit_vector);
            assert(0xE0 | ((scalar >> 12) & 0x0F) as u8 != 0xff) by (bit_vector);
            assert(0xF0 | ((scalar >> 18) & 0x7) as u8 != 0xff) by (bit_vector);
            assert(0x80 | (scalar & 0x3F) as u8 != 0xff) by (bit_vector);
            assert(0x80 | ((scalar >> 6) & 0x3F) as u8 != 0xff) by (bit_vector);
            assert(0x80 | ((scalar >> 12) & 0x3F) as u8 != 0xff) by (bit_vector);
        }
        assert forall|i: int| 0 <= i < encode_utf8(s).len() implies #[trigger] encode_utf8(s)[i]
            != TERMINATOR by {
            if i < head.len() {
                assert(encode_utf8(s)[i] == head[i]);
            } else {
                assert(encode_utf8(s)[i] == tail[i - head.len()]);
            }
        }
    }
}

/// A stream that ends with a terminated string can be split into that string
/// and what stands before it in one way only.
proof fn lemma_last_string_unique(
    before_a: Seq<u8>,
    last_a: Seq<u8>,
    before_b: Seq<u8>,
    last_b: Seq<u8>,
)
    requires
        closed(before_a),
        closed(before_b),
        free_of_terminator(last_a),
        free_of_terminator(last_b),
        before_a + last_a.push(TERMINATOR) == before_b + last_b.push(TERMINATOR),
    ensures
        before_a == before_b,
        last_a == last_b,
{
    let whole_a = before_a + last_a.push(TERMINATOR);
    let whole_b = before_b + last_b.push(TERMINATOR);
    assert(whole_a.len() == before_a.len() + last_a.len() + 1);
    assert(whole_b.len() == before_b.len() + last_b.len() + 1);
    if before_a.len() > before_b.len() {
        let at = before_a.len() - 1;
        assert(whole_a[at] == before_a.last());
        assert(whole_b[at] == last_b[at - before_b.len()]);
    }
    if before_b.len() > before_a.len() {
        let at = before_b.len() - 1;
        assert(whole_b[at] == before_b.last());
        assert(whole_a[at] == last_a[at - before_a.len()]);
    }
    assert(before_a =~= before_b) by {
        assert forall|i: int| 0 <= i < before_a.len() implies before_a[i] == before_b[i] by {
            assert(whole_a[i] == before_a[i]);
            assert(whole_b[i] == before_b[i]);
        }
    }
    assert(last_a =~= last_b) by {
        assert forall|i: int| 0 <= i < last_a.len() implies last_a[i] == last_b[i] by {
            assert(whole_a[before_a.len() + i] == last_a[i]);
            assert(whole_b[before_b.len() + i] == last_b[i]);
        }
    }
}

/// A stream is empty, for no files, or ends with the terminator.
proof fn lemma_stream_closed(files: Seq<FileText>)
    ensures
        closed(stream_of(files)),
        files.len() > 0 ==> stream_of(files).len() >= 2,
{
}

/// The bytes fed to the hasher tell the list of files: two lists with the
/// same stream hold the same paths and contents in the same order.
///
/// So the streams of two lists differ whenever the lists do, be it in one
/// path, in one content, in the order or in the number of files, and their
/// checksums are equal only where the hasher maps two different streams to
/// one value.
pub proof fn lemma_stream_tells_files(first: Seq<FileText>, second: Seq<FileText>)
    requires
        stream_of(first) == stream_of(second),
    ensures
        first == second,
    decreases first.len(),
{
    lemma_stream_closed(first);
    lemma_stream_closed(second);
    if first.len() == 0 || second.len() == 0 {
        assert(first =~= second);
    } else {
        let a = first.last();
        let b = second.last();
        let rest_a = stream_of(first.drop_last());
        let rest_b = stream_of(second.drop_last());
        lemma_stream_closed(first.drop_last());
        lemma_stream_closed(second.drop_last());
        lemma_utf8_has_no_terminator(a.path);
        lemma_utf8_has_no_terminator(a.content);
        lemma_utf8_has_no_terminator(b.path);
        lemma_utf8_has_no_terminator(b.content);
        lemma_last_string_unique(
            rest_a + terminated(a.path),
            encode_utf8(a.content),
            rest_b + terminated(b.path),
            encode_utf8(b.content),
        );
        lemma_last_string_unique(rest_a, encode_utf8(a.path), rest_b, encode_utf8(b.path));
        encode_utf8_decode_utf8(a.path);
        encode_utf8_decode_utf8(b.path);
        encode_utf8_decode_utf8(a.content);
        encode_utf8_decode_utf8(b.content);
        lemma_stream_tells_files(first.drop_last(), second.drop_last());
        assert(a == b);
        assert(first =~= first.drop_last().push(a));
        assert(second =~= second.drop_last().push(b));
    }
}

/// Exchanging two files that differ changes the stream.
pub proof fn lemma_reordering_changes_stream(files: Seq<FileText>, i: int, j: int)
    requires
        0 <= i < files.len(),
        0 <= j < files.len(),
        files[i] != files[j],
    ensures
        stream_of(files.update(i, files[j]).update(j, files[i])) != stream_of(files),
{
    let exchanged = files.update(i, files[j]).update(j, files[i]);
    assert(exchanged[j] != files[j]);
    if stream_of(exchanged) == stream_of(files) {
        lemma_stream_tells_files(exchanged, files);
    }
}

/// Replacing one file by another with a different path or a different
/// content changes the stream.
pub proof fn lemma_edit_changes_stream(files: Seq<FileText>, i: int, edited: FileText)
    requires
        0 <= i < files.len(),
        edited != files[i],
    ensures
        stream_of(files.update(i, edited)) != stream_of(files),
{
    assert(files.update(i, edited)[i] != files[i]);
    if stream_of(files.update(i, edited)) == stream_of(files) {
        lemma_stream_tells_files(files.update(i, edited), files);
    }
}

} // verus!
