//! What the node's settings take from their sources: which source counts, and
//! how extra request headers are written on the command line.

use vstd::prelude::*;

verus! {

/// Why the settings could not be taken.
#[derive(Clone, Debug, PartialEq, Eq)]
pub enum ConfigError {
    /// A header on the command line is not of the form `name:value`.
    CLAHttpHeader { illegal_header: Vec<u8> },
}

/// The byte that parts one header from the next.
pub const HEADER_SEPARATOR: u8 = 0x20;

/// The byte that parts a header's name from its value.
pub const NAME_SEPARATOR: u8 = 0x3a;

/// The value of a setting, given what each source has for it: the environment
/// counts before the command line, the command line before the settings file,
/// and the file before the default.
pub fn pick_value<T>(env: Option<T>, cla: Option<T>, file: Option<T>, default: Option<T>) -> (r: Option<T>)
    ensures
        r == if env is Some {
            env
        } else if cla is Some {
            cla
        } else if file is Some {
            file
        } else {
            default
        },
{
    if env.is_some() {
        env
    } else if cla.is_some() {
        cla
    } else if file.is_some() {
        file
    } else {
        default
    }
}

/// The pieces of `text` between the occurrences of `separator`, in order. There
/// is one piece more than there are separators; a piece may be empty.
pub open spec fn pieces(text: Seq<u8>, separator: u8) -> Seq<Seq<u8>>
    decreases text.len(),
{
    if text.len() == 0 {
        seq![Seq::empty()]
    } else {
        let before = pieces(text.drop_last(), separator);
        if text.last() == separator {
            before.push(Seq::empty())
        } else {
            before.drop_last().push(before.last().push(text.last()))
        }
    }
}

/// The name and the value of a header, where it has exactly one name
/// separator.
pub open spec fn header_parts(header: Seq<u8>) -> Option<(Seq<u8>, Seq<u8>)> {
    let parts = pieces(header, NAME_SEPARATOR);
    if parts.len() == 2 {
        Some((parts[0], parts[1]))
    } else {
        None
    }
}

/// `headers` are the headers that `text` holds: every piece of `text` between
/// header separators is a header, and `headers` gives the name and the value
/// of each, in order.
pub open spec fn holds_headers(text: Seq<u8>, headers: Seq<(Seq<u8>, Seq<u8>)>) -> bool {
    let all = pieces(text, HEADER_SEPARATOR);
    &&& headers.len() == all.len()
    &&& forall|i: int| 0 <= i < all.len() ==> header_parts(#[trigger] all[i]) == Some(headers[i])
}

/// `illegal_header` is the first piece of `text` between header separators
/// that is no header.
pub open spec fn first_illegal_header(text: Seq<u8>, illegal_header: Seq<u8>) -> bool {
    let all = pieces(text, HEADER_SEPARATOR);
    exists|i: int|
        {
            &&& 0 <= i < all.len()
            &&& #[trigger] all[i] == illegal_header
            &&& header_parts(all[i]) is None
            &&& forall|j: int| 0 <= j < i ==> header_parts(#[trigger] all[j]) is Some
        }
}

/// What the vectors hold, as sequences.
pub open spec fn contents(vectors: Seq<Vec<u8>>) -> Seq<Seq<u8>> {
    vectors.map_values(|v: Vec<u8>| v@)
}

/// What the pairs of vectors hold, as pairs of sequences.
pub open spec fn pair_contents(pairs: Seq<(Vec<u8>, Vec<u8>)>) -> Seq<(Seq<u8>, Seq<u8>)> {
    pairs.map_values(|p: (Vec<u8>, Vec<u8>)| (p.0@, p.1@))
}

/// Parts `text` at each occurrence of `separator`.
pub fn split(text: &[u8], separator: u8) -> (r: Vec<Vec<u8>>)
    ensures
        contents(r@) == pieces(text@, separator),
{
    let mut done: Vec<Vec<u8>> = Vec::new();
    let mut current: Vec<u8> = Vec::new();
    let mut i: usize = 0;
    proof {
        assert(text@.take(0) =~= Seq::<u8>::empty());
        assert(contents(done@).push(current@) =~= pieces(text@.take(0), separator));
    }
    while i < text.len()
        invariant
            i <= text.len(),
            contents(done@).push(current@) == pieces(text@.take(i as int), separator),
        decreases text.len() - i,
    {
        let byte = text[i];
        proof {
            let upto = text@.take(i as int + 1);
            assert(upto.drop_last() =~= text@.take(i as int));
            assert(upto.last() == byte);
        }
        let ghost before = contents(done@).push(current@);
        if byte == separator {
            done.push(current);
            current = Vec::new();
            assert(contents(done@).push(current@) =~= before.push(Seq::empty()));
        } else {
            current.push(byte);
            assert(contents(done@).push(current@) =~= before.drop_last().push(before.last().push(byte)));
        }
        i = i + 1;
    }
    assert(text@.take(i as int) =~= text@);
    let ghost before = contents(done@).push(current@);
    done.push(current);
    assert(contents(done@) =~= before);
    done
}

/// Reads the extra request headers as they are written on the command line:
/// headers parted by single spaces, each a name and a value parted by a colon.
/// A piece between spaces that has no colon, or more than one, is refused, the
/// first such piece with the error.
pub fn parse_http_headers(text: &[u8]) -> (r: Result<Vec<(Vec<u8>, Vec<u8>)>, ConfigError>)
    ensures
        match r {
            Ok(headers) => holds_headers(text@, pair_contents(headers@)),
            Err(ConfigError::CLAHttpHeader { illegal_header }) => first_illegal_header(text@, illegal_header@),
        },
{
    let all = split(text, HEADER_SEPARATOR);
    let ghost all_pieces = pieces(text@, HEADER_SEPARATOR);
    let mut headers: Vec<(Vec<u8>, Vec<u8>)> = Vec::new();
    let mut i: usize = 0;
    while i < all.len()
        invariant
            i <= all.len(),
            contents(all@) == all_pieces,
            all_pieces == pieces(text@, HEADER_SEPARATOR),
            headers.len() == i,
            forall|j: int| 0 <= j < i ==> header_parts(#[trigger] all_pieces[j]) == Some((headers@[j].0@, headers@[j].1@)),
        decreases all.len() - i,
    {
        let mut parts = split(all[i].as_slice(), NAME_SEPARATOR);
        assert(all_pieces[i as int] == all@[i as int]@);
        assert(contents(parts@).len() == parts@.len());
        if parts.len() != 2 {
            let mut illegal_header: Vec<u8> = Vec::new();
            let mut k: usize = 0;
            while k < all[i].len()
                invariant
                    i < all.len(),
                    k <= all[i as int].len(),
                    illegal_header@ == all[i as int]@.take(k as int),
                decreases all[i as int].len() - k,
            {
                illegal_header.push(all[i][k]);
                k = k + 1;
            }
            assert(illegal_header@ == all_pieces[i as int]) by {
                assert(all[i as int]@.take(k as int) =~= all[i as int]@);
            }
            assert(header_parts(all_pieces[i as int]) is None);
            return Err(ConfigError::CLAHttpHeader { illegal_header });
        }
        let value = parts.pop().unwrap();
        let name = parts.pop().unwrap();
        assert(header_parts(all_pieces[i as int]) == Some((name@, value@))) by {
            let both = pieces(all_pieces[i as int], NAME_SEPARATOR);
            assert(both[0] == name@);
            assert(both[1] == value@);
        }
        headers.push((name, value));
        i = i + 1;
    }
    Ok(headers)
}

} // verus!
