//! Torrent metadata as the download logic reads it: file layout, nominal
//! piece length, and the ordered table of expected 20-byte piece hashes.
//! Decoding the metadata container format itself is a collaborator's job;
//! this module works on the already-extracted values.

use vstd::prelude::*;
use vstd::string::StringExecFns;

use crate::error::Error;

verus! {

/// The ordered piece-hash table, one 20-byte digest per piece.
#[derive(Clone, Debug)]
pub struct Hashes(pub Vec<[u8; 20]>);

/// The length layout: one single file, or several whose lengths sum.
#[derive(Clone, Debug)]
pub enum Keys {
    SingleFile { length: usize },
    MultiFile { files: Vec<File> },
}

/// One file entry of a multi-file layout.
#[derive(Clone, Debug)]
pub struct File {
    pub length: usize,
    pub path: Vec<String>,
}

/// The info section: name, nominal piece length, hash table, layout.
#[derive(Clone, Debug)]
pub struct Info {
    pub name: String,
    pub plength: usize,
    pub pieces: Hashes,
    pub keys: Keys,
}

/// A parsed torrent: the tracker announce URL and the info section.
#[derive(Clone, Debug)]
pub struct Torrent {
    pub announce: String,
    pub info: Info,
}

/// The lower-case hex digit for a value below 16.
pub open spec fn spec_hex_digit(v: int) -> char {
    if v == 0 {
        '0'
    } else if v == 1 {
        '1'
    } else if v == 2 {
        '2'
    } else if v == 3 {
        '3'
    } else if v == 4 {
        '4'
    } else if v == 5 {
        '5'
    } else if v == 6 {
        '6'
    } else if v == 7 {
        '7'
    } else if v == 8 {
        '8'
    } else if v == 9 {
        '9'
    } else if v == 10 {
        'a'
    } else if v == 11 {
        'b'
    } else if v == 12 {
        'c'
    } else if v == 13 {
        'd'
    } else if v == 14 {
        'e'
    } else {
        'f'
    }
}

/// Lower-case hex encoding: two digits per byte, high nibble first.
pub open spec fn spec_hex(data: Seq<u8>) -> Seq<char>
    decreases data.len(),
{
    if data.len() == 0 {
        Seq::empty()
    } else {
        seq![
            spec_hex_digit(data[0] as int / 16),
            spec_hex_digit(data[0] as int % 16),
        ] + spec_hex(data.skip(1))
    }
}

/// Relies on hex::encode: lower-case hex, two digits per input byte, high
/// nibble first.
#[verifier::external_body]
fn hex_string(data: &[u8]) -> (r: String)
    ensures
        r@ == spec_hex(data@),
{
    hex::encode(data)
}

/// URL escape of a binary info-hash: each byte as `%` followed by its two
/// lower-case hex digits.
pub open spec fn spec_urlencode(data: Seq<u8>) -> Seq<char>
    decreases data.len(),
{
    if data.len() == 0 {
        Seq::empty()
    } else {
        seq!['%'] + spec_hex(seq![data[0]]) + spec_urlencode(data.skip(1))
    }
}

/// Splitting a byte off the back of the escape commutes with encoding it.
proof fn lemma_urlencode_push(data: Seq<u8>, b: u8)
    ensures
        spec_urlencode(data.push(b)) == spec_urlencode(data) + seq!['%'] + spec_hex(seq![b]),
    decreases data.len(),
{
    if data.len() == 0 {
        let l = data.push(b);
        assert(l.skip(1) =~= Seq::<u8>::empty());
        assert(seq![l[0]] =~= seq![b]);
        assert(spec_urlencode(l) == seq!['%'] + spec_hex(seq![l[0]]) + spec_urlencode(l.skip(1)));
        assert(spec_urlencode(l) =~= spec_urlencode(data) + seq!['%'] + spec_hex(seq![b]));
    } else {
        assert(data.push(b).skip(1) =~= data.skip(1).push(b));
        lemma_urlencode_push(data.skip(1), b);
        assert(spec_urlencode(data.push(b)) =~= spec_urlencode(data) + seq!['%'] + spec_hex(
            seq![b],
        ));
    }
}

/// Escapes a 20-byte info-hash for use in a tracker query string.
pub fn urlencode(t: &[u8; 20]) -> (r: String)
    ensures
        r@ == spec_urlencode(t@),
{
    let mut encoded = String::new();
    let mut i: usize = 0;
    proof {
        assert(t@.take(0) =~= Seq::empty());
        reveal_strlit("%");
    }
    while i < 20
        invariant
            i <= 20,
            t@.len() == 20,
            encoded@ == spec_urlencode(t@.take(i as int)),
        decreases 20 - i,
    {
        let byte: [u8; 1] = [t[i]];
        encoded.append("%");
        let hexed = hex_string(byte.as_slice());
        encoded.append(hexed.as_str());
        proof {
            reveal_strlit("%");
            assert(byte@ =~= seq![t@[i as int]]);
            assert(t@.take(i + 1) =~= t@.take(i as int).push(t@[i as int]));
            lemma_urlencode_push(t@.take(i as int), t@[i as int]);
            assert(encoded@ =~= spec_urlencode(t@.take(i + 1)));
        }
        i = i + 1;
    }
    proof {
        assert(t@.take(20) =~= t@);
    }
    encoded
}

/// Sum of the file lengths of a multi-file layout.
pub open spec fn spec_sum_lengths(files: Seq<File>) -> int
    decreases files.len(),
{
    if files.len() == 0 {
        0
    } else {
        files[0].length + spec_sum_lengths(files.skip(1))
    }
}

/// Every prefix of the sum is at most the whole sum.
proof fn lemma_sum_lengths_prefix(files: Seq<File>, k: int)
    requires
        0 <= k <= files.len(),
    ensures
        spec_sum_lengths(files.take(k)) <= spec_sum_lengths(files),
        spec_sum_lengths(files.take(k)) >= 0,
        k < files.len() ==> spec_sum_lengths(files.take(k)) + files[k].length
            == spec_sum_lengths(files.take(k + 1)),
    decreases files.len(), k,
{
    lemma_sum_lengths_nonneg(files);
    if k > 0 {
        assert(files.take(k)[0] == files[0]);
        assert(files.take(k).skip(1) =~= files.skip(1).take(k - 1));
        if k < files.len() {
            assert(files.take(k + 1)[0] == files[0]);
            assert(files.take(k + 1).skip(1) =~= files.skip(1).take(k));
            assert(files.skip(1)[k - 1] == files[k]);
        }
        lemma_sum_lengths_prefix(files.skip(1), k - 1);
    } else {
        assert(files.take(0) =~= Seq::empty());
        if 0 < files.len() {
            assert(files.take(1)[0] == files[0]);
            assert(files.take(1).skip(1) =~= Seq::empty());
        }
    }
}

/// A sum of usize lengths is never negative.
proof fn lemma_sum_lengths_nonneg(files: Seq<File>)
    ensures
        spec_sum_lengths(files) >= 0,
    decreases files.len(),
{
    if files.len() > 0 {
        lemma_sum_lengths_nonneg(files.skip(1));
    }
}

/// The total length the metadata describes, whatever the layout.
pub open spec fn spec_total_length(t: Torrent) -> int {
    match t.info.keys {
        Keys::SingleFile { length } => length as int,
        Keys::MultiFile { files } => spec_sum_lengths(files@),
    }
}

impl Torrent {
    /// Total file length: the single file's length, or the sum over the
    /// multi-file entries. The sum must fit the machine word.
    pub fn length(&self) -> (r: usize)
        requires
            spec_total_length(*self) <= usize::MAX,
        ensures
            r == spec_total_length(*self),
    {
        match &self.info.keys {
            Keys::SingleFile { length } => *length,
            Keys::MultiFile { files } => {
                let n = files.len();
                let mut total: usize = 0;
                let mut k: usize = 0;
                proof {
                    assert(files@.take(0) =~= Seq::empty());
                }
                while k < n
                    invariant
                        k <= n,
                        n == files@.len(),
                        self.info.keys == (Keys::MultiFile { files: *files }),
                        spec_total_length(*self) <= usize::MAX,
                        total == spec_sum_lengths(files@.take(k as int)),
                    decreases n - k,
                {
                    proof {
                        lemma_sum_lengths_prefix(files@, k as int);
                        lemma_sum_lengths_prefix(files@, k + 1);
                    }
                    total = total + files[k].length;
                    k = k + 1;
                }
                proof {
                    assert(files@.take(n as int) =~= files@);
                }
                total
            },
        }
    }

    /// The hash table rendered as lower-case hex strings, one per piece.
    pub fn hashes(&self) -> (r: Result<Vec<String>, Error>)
        ensures
            (match r {
                Ok(hs) => {
                    &&& hs@.len() == self.info.pieces.0@.len()
                    &&& forall|k: int|
                        0 <= k < hs@.len() ==> (#[trigger] hs@[k])@ == spec_hex(
                            self.info.pieces.0@[k]@,
                        )
                },
                Err(_) => false,
            }),
    {
        let pieces = &self.info.pieces.0;
        let n = pieces.len();
        let mut out: Vec<String> = Vec::new();
        let mut k: usize = 0;
        while k < n
            invariant
                k <= n,
                n == pieces@.len(),
                pieces == &self.info.pieces.0,
                out@.len() == k,
                forall|j: int|
                    0 <= j < k ==> (#[trigger] out@[j])@ == spec_hex(pieces@[j]@),
            decreases n - k,
        {
            out.push(hex_string(pieces[k].as_slice()));
            k = k + 1;
        }
        Ok(out)
    }
}

/// Splits a raw hash table blob into whole 20-byte digests; a blob that
/// does not divide into 20-byte records is rejected.
pub fn parse_hashes(v: &Vec<u8>) -> (r: Result<Hashes, Error>)
    ensures
        (match r {
            Ok(hashes) => {
                &&& v@.len() % 20 == 0
                &&& hashes.0@.len() == v@.len() / 20
                &&& forall|k: int|
                    0 <= k < hashes.0@.len() ==> (#[trigger] hashes.0@[k])@ == v@.subrange(
                        20 * k,
                        20 * k + 20,
                    )
            },
            Err(e) => {
                &&& e == Error::InvalidLength(v@.len() as usize)
                &&& v@.len() % 20 != 0
            },
        }),
{
    if v.len() % 20 != 0 {
        return Err(Error::InvalidLength(v.len()));
    }
    let n = v.len() / 20;
    proof {
        assert(20 * (n as int) <= v@.len());
    }
    let mut out: Vec<[u8; 20]> = Vec::new();
    let mut i: usize = 0;
    while i < n
        invariant
            i <= n,
            v@.len() <= usize::MAX,
            v@.len() % 20 == 0,
            n == v@.len() / 20,
            20 * (n as int) <= v@.len(),
            out@.len() == i,
            forall|k: int|
                0 <= k < i ==> (#[trigger] out@[k])@ == v@.subrange(20 * k, 20 * k + 20),
        decreases n - i,
    {
        let base = 20 * i;
        let mut chunk: [u8; 20] = [0u8; 20];
        let mut j: usize = 0;
        while j < 20
            invariant
                j <= 20,
                base == 20 * (i as int),
                i < n,
                n == v@.len() / 20,
                20 * (n as int) <= v@.len(),
                v@.len() <= usize::MAX,
                forall|m: int| 0 <= m < j ==> chunk@[m] == v@[base + m],
            decreases 20 - j,
        {
            chunk[j] = v[base + j];
            j = j + 1;
        }
        proof {
            assert(chunk@ =~= v@.subrange(20 * (i as int), 20 * (i as int) + 20));
        }
        out.push(chunk);
        i = i + 1;
    }
    Ok(Hashes(out))
}

} // verus!
