//! The container codec and the naming of output files.
//!
//! A container is the serialized header, one line feed, and the ciphertext.
//! The header is whatever bytes the caller serialized it to, as long as they
//! hold no line feed: the first line feed of a container ends the header.
//!
//! Output files never replace existing ones: a name that is taken gets a
//! counter in parentheses, and the counter grows until a name is free.

use crate::error::CryptError;
use crate::text::{decimal, decimal_string, lemma_decimal_value};
use vstd::prelude::*;
use vstd::set_lib::{lemma_int_range, lemma_len_subset, set_int_range};
use vstd::slice::{slice_subrange, slice_to_vec};
use vstd::string::{StrSliceExecFns, StringExecFns};

verus! {

/// The byte that ends the header of a container: a line feed.
pub const DELIMITER: u8 = 0x0A;

/// The bytes of a container with the given serialized header and ciphertext.
pub open spec fn container_bytes(header: Seq<u8>, body: Seq<u8>) -> Seq<u8> {
    header + seq![DELIMITER] + body
}

/// `at` is where the first delimiter of `bytes` stands.
pub open spec fn first_delimiter_at(bytes: Seq<u8>, at: int) -> bool {
    &&& 0 <= at < bytes.len()
    &&& bytes[at] == DELIMITER
    &&& forall|i: int| 0 <= i < at ==> bytes[i] != DELIMITER
}

/// The serialized header and the ciphertext of a container: what stands
/// before and after its first delimiter. `None` if there is no delimiter.
pub open spec fn container_parts(bytes: Seq<u8>) -> Option<(Seq<u8>, Seq<u8>)> {
    if exists|at: int| first_delimiter_at(bytes, at) {
        let at = choose|at: int| first_delimiter_at(bytes, at);
        Some((bytes.take(at), bytes.skip(at + 1)))
    } else {
        None
    }
}

/// There is at most one first delimiter, and there is one as soon as the
/// delimiter occurs at all.
proof fn lemma_first_delimiter(bytes: Seq<u8>, at: int)
    requires
        first_delimiter_at(bytes, at),
    ensures
        container_parts(bytes) == Some((bytes.take(at), bytes.skip(at + 1))),
{
    let chosen = choose|at: int| first_delimiter_at(bytes, at);
    assert(chosen == at) by {
        if chosen < at {
            assert(bytes[chosen] != DELIMITER);
        } else if at < chosen {
            assert(bytes[at] != DELIMITER);
        }
    }
}

/// A container decodes to the header and the ciphertext that it was encoded
/// from, byte for byte, provided the header holds no delimiter.
pub proof fn lemma_decode_inverts_encode(header: Seq<u8>, body: Seq<u8>)
    requires
        !header.contains(DELIMITER),
    ensures
        container_parts(container_bytes(header, body)) == Some((header, body)),
{
    let bytes = container_bytes(header, body);
    let at = header.len() as int;
    assert forall|i: int| 0 <= i < at implies bytes[i] != DELIMITER by {
        assert(bytes[i] == header[i]);
        assert(header.contains(header[i]));
    }
    assert(first_delimiter_at(bytes, at));
    lemma_first_delimiter(bytes, at);
    assert(bytes.take(at) =~= header);
    assert(bytes.skip(at + 1) =~= body);
}

/// Encoding the parts of a container gives the container back, and the
/// header part holds no delimiter.
pub proof fn lemma_encode_inverts_decode(bytes: Seq<u8>, header: Seq<u8>, body: Seq<u8>)
    requires
        container_parts(bytes) == Some((header, body)),
    ensures
        container_bytes(header, body) == bytes,
        !header.contains(DELIMITER),
{
    let at = choose|at: int| first_delimiter_at(bytes, at);
    assert(container_bytes(bytes.take(at), bytes.skip(at + 1)) =~= bytes);
}

/// Where the first delimiter of `bytes` stands, if there is one.
fn find_delimiter(bytes: &[u8]) -> (found: Option<usize>)
    ensures
        match found {
            Some(at) => first_delimiter_at(bytes@, at as int),
            None => !bytes@.contains(DELIMITER),
        },
{
    let mut i: usize = 0;
    while i < bytes.len()
        invariant
            i <= bytes@.len(),
            forall|j: int| 0 <= j < i ==> bytes@[j] != DELIMITER,
        decreases bytes@.len() - i,
    {
        if bytes[i] == DELIMITER {
            return Some(i);
        }
        i += 1;
    }
    None
}

/// Frames a serialized header and a ciphertext as one container.
///
/// Fails with `FormatError` exactly when the header holds a delimiter: such a
/// container would not decode to the same header.
pub fn encode_container(header: &[u8], body: &[u8]) -> (r: Result<Vec<u8>, CryptError>)
    ensures
        header@.contains(DELIMITER) ==> r == Err::<Vec<u8>, CryptError>(CryptError::FormatError),
        !header@.contains(DELIMITER) ==> r is Ok && r->Ok_0@ == container_bytes(header@, body@),
{
    match find_delimiter(header) {
        Some(at) => {
            assert(header@[at as int] == DELIMITER);
            Err(CryptError::FormatError)
        },
        None => {
            let mut bytes = slice_to_vec(header);
            bytes.push(DELIMITER);
            bytes.extend_from_slice(body);
            assert(bytes@ =~= container_bytes(header@, body@));
            Ok(bytes)
        },
    }
}

/// Splits a container into its serialized header and its ciphertext at the
/// first delimiter.
///
/// Fails with `FormatError` exactly when there is no delimiter.
pub fn decode_container(bytes: &[u8]) -> (r: Result<(Vec<u8>, Vec<u8>), CryptError>)
    ensures
        match container_parts(bytes@) {
            Some((header, body)) => r is Ok && r->Ok_0.0@ == header && r->Ok_0.1@ == body,
            None => r == Err::<(Vec<u8>, Vec<u8>), CryptError>(CryptError::FormatError),
        },
{
    match find_delimiter(bytes) {
        Some(at) => {
            proof {
                lemma_first_delimiter(bytes@, at as int);
            }
            let len = bytes.len();
            let header = slice_to_vec(slice_subrange(bytes, 0, at));
            let body = slice_to_vec(slice_subrange(bytes, at + 1, len));
            assert(header@ =~= bytes@.take(at as int));
            assert(body@ =~= bytes@.skip(at + 1));
            Ok((header, body))
        },
        None => {
            assert(container_parts(bytes@) is None) by {
                if exists|at: int| first_delimiter_at(bytes@, at) {
                    let at = choose|at: int| first_delimiter_at(bytes@, at);
                    assert(bytes@.contains(bytes@[at]));
                }
            }
            Err(CryptError::FormatError)
        },
    }
}

/// Where the last dot of a name stands; -1 if it holds none.
pub open spec fn last_dot(name: Seq<char>) -> int
    decreases name.len(),
{
    if name.len() == 0 {
        -1
    } else if name.last() == '.' {
        name.len() - 1
    } else {
        last_dot(name.drop_last())
    }
}

/// The plain name of an output file: the base name, followed by a dot and the
/// extension if there is one.
pub open spec fn plain_name(base: Seq<char>, extension: Option<Seq<char>>) -> Seq<char> {
    match extension {
        Some(ext) => base + seq!['.'] + ext,
        None => base,
    }
}

/// Where a counter goes into a name: before its last dot, which begins the
/// final extension, or at its end if it holds no dot.
pub open spec fn counter_position(name: Seq<char>) -> int {
    if last_dot(name) < 0 {
        name.len() as int
    } else {
        last_dot(name)
    }
}

/// The name tried at a given attempt. Attempt 0 is the plain name; attempt
/// `k` from 1 upwards is the plain name with `(k)` put before its final
/// extension.
pub open spec fn candidate_name(
    base: Seq<char>,
    extension: Option<Seq<char>>,
    attempt: nat,
) -> Seq<char> {
    let plain = plain_name(base, extension);
    if attempt == 0 {
        plain
    } else {
        plain.take(counter_position(plain)) + seq!['('] + decimal(attempt) + seq![')']
            + plain.skip(counter_position(plain))
    }
}

/// The characters of an optional string.
pub open spec fn opt_view(text: Option<&str>) -> Option<Seq<char>> {
    match text {
        Some(t) => Some(t@),
        None => None,
    }
}

/// One of the existing names is `name`.
pub open spec fn is_taken(existing: Seq<String>, name: Seq<char>) -> bool {
    exists|i: int| 0 <= i < existing.len() && (#[trigger] existing[i])@ == name
}

/// The last dot of a name, if there is one, is a dot within the name.
proof fn lemma_last_dot(name: Seq<char>)
    ensures
        -1 <= last_dot(name) < name.len(),
        last_dot(name) >= 0 ==> name[last_dot(name)] == '.',
    decreases name.len(),
{
    if name.len() > 0 && name.last() != '.' {
        lemma_last_dot(name.drop_last());
    }
}

/// No two attempts try the same name: in particular, no numbered name is the
/// plain name.
pub proof fn lemma_candidates_distinct(
    base: Seq<char>,
    extension: Option<Seq<char>>,
    first: nat,
    second: nat,
)
    requires
        first != second,
    ensures
        candidate_name(base, extension, first) != candidate_name(base, extension, second),
{
    let plain = plain_name(base, extension);
    let at = counter_position(plain);
    lemma_last_dot(plain);
    lemma_decimal_value(first);
    lemma_decimal_value(second);
    let a = candidate_name(base, extension, first);
    let b = candidate_name(base, extension, second);
    if first != 0 && second != 0 {
        if a == b {
            let from = at + 1;
            assert(a.subrange(from, from + decimal(first).len() as int) =~= decimal(first));
            assert(b.subrange(from, from + decimal(second).len() as int) =~= decimal(second));
            assert(decimal(first) == decimal(second));
        }
    } else {
        assert(a.len() != b.len());
    }
}

/// Whether a name ends in a dot followed by the extension.
pub open spec fn has_extension(name: Seq<char>, extension: Seq<char>) -> bool {
    &&& name.len() >= extension.len() + 1
    &&& name.skip(name.len() - extension.len() - 1) == seq!['.'] + extension
}

/// A name without the dot and the extension that it ends in; the name as it
/// is if it does not end so.
pub open spec fn without_extension(name: Seq<char>, extension: Seq<char>) -> Seq<char> {
    if has_extension(name, extension) {
        name.take(name.len() - extension.len() - 1)
    } else {
        name
    }
}

/// Takes the extension off a name: the base name of the file that a
/// container with this name decrypts to.
pub fn strip_extension(name: &str, extension: &str) -> (base: String)
    ensures
        base@ == without_extension(name@, extension@),
{
    let name_len = name.unicode_len();
    let ext_len = extension.unicode_len();
    if name_len <= ext_len {
        return name.to_owned();
    }
    let start = name_len - ext_len - 1;
    let ghost suffix = name@.skip(start as int);
    let ghost wanted = seq!['.'] + extension@;
    assert(suffix[0] == name@[start as int]);
    if name.get_char(start) != '.' {
        assert(suffix[0] != wanted[0]);
        return name.to_owned();
    }
    let mut i: usize = 0;
    while i < ext_len
        invariant
            i <= ext_len,
            ext_len == extension@.len(),
            name_len == name@.len(),
            start == name_len - ext_len - 1,
            suffix == name@.skip(start as int),
            wanted == seq!['.'] + extension@,
            forall|j: int| 0 <= j <= i ==> suffix[j] == wanted[j],
        decreases ext_len - i,
    {
        assert(suffix[i + 1] == name@[start + 1 + i]);
        assert(wanted[i + 1] == extension@[i as int]);
        if name.get_char(start + 1 + i) != extension.get_char(i) {
            return name.to_owned();
        }
        i += 1;
    }
    assert(suffix =~= wanted);
    name.substring_char(0, start).to_owned()
}

/// Finds the last dot of a name.
fn find_last_dot(name: &str) -> (found: Option<usize>)
    ensures
        match found {
            Some(at) => at == last_dot(name@),
            None => last_dot(name@) < 0,
        },
{
    let len = name.unicode_len();
    let mut found: Option<usize> = None;
    let mut i: usize = 0;
    while i < len
        invariant
            len == name@.len(),
            i <= len,
            match found {
                Some(at) => at == last_dot(name@.take(i as int)),
                None => last_dot(name@.take(i as int)) < 0,
            },
        decreases len - i,
    {
        assert(name@.take(i + 1).drop_last() =~= name@.take(i as int));
        if name.get_char(i) == '.' {
            found = Some(i);
        }
        i += 1;
    }
    assert(name@.take(len as int) =~= name@);
    found
}

/// Looks a name up among the existing ones.
fn find_taken(existing: &Vec<String>, name: &String) -> (found: Option<usize>)
    ensures
        match found {
            Some(i) => i < existing@.len() && existing@[i as int]@ == name@,
            None => !is_taken(existing@, name@),
        },
{
    let mut i: usize = 0;
    while i < existing.len()
        invariant
            i <= existing@.len(),
            forall|j: int| 0 <= j < i ==> (#[trigger] existing@[j])@ != name@,
        decreases existing@.len() - i,
    {
        if existing[i] == *name {
            return Some(i);
        }
        i += 1;
    }
    None
}

/// Calls `std::path::Path::exists` on the path that `name` spells. The answer
/// depends on what is on disk at this moment; nothing is claimed of it.
#[verifier::external_body]
fn path_exists(name: &str) -> (taken: bool) {
    std::path::Path::new(name).exists()
}

/// The name tried at a given attempt: see `candidate_name`.
pub fn unique_name_candidate(base_name: &str, extension: Option<&str>, attempt: u64) -> (name:
    String)
    ensures
        name@ == candidate_name(base_name@, opt_view(extension), attempt as nat),
{
    proof {
        reveal_strlit(".");
        reveal_strlit("(");
        reveal_strlit(")");
    }
    let mut plain = base_name.to_owned();
    match extension {
        Some(ext) => {
            plain.append(".");
            plain.append(ext);
        },
        None => {},
    }
    assert(plain@ =~= plain_name(base_name@, opt_view(extension)));
    if attempt == 0 {
        return plain;
    }
    proof {
        lemma_last_dot(plain@);
    }
    let len = plain.as_str().unicode_len();
    let at = match find_last_dot(plain.as_str()) {
        Some(at) => at,
        None => len,
    };
    let mut name = plain.as_str().substring_char(0, at).to_owned();
    name.append("(");
    name.append(decimal_string(attempt).as_str());
    name.append(")");
    name.append(plain.as_str().substring_char(at, len));
    assert(name@ =~= candidate_name(base_name@, opt_view(extension), attempt as nat));
    name
}

/// One step of the search for a free name, given the answer for the name of
/// one attempt: a name that is free ends the search, a name that is taken
/// leads to the name of the next attempt.
pub fn next_candidate(base_name: &str, extension: Option<&str>, attempt: u64, taken: bool) -> (next:
    Option<String>)
    requires
        taken ==> attempt < u64::MAX,
    ensures
        !taken ==> next is None,
        taken ==> next is Some && next->0@ == candidate_name(
            base_name@,
            opt_view(extension),
            (attempt + 1) as nat,
        ),
{
    if taken {
        Some(unique_name_candidate(base_name, extension, attempt + 1))
    } else {
        None
    }
}

/// Picks the first candidate that is not among the existing names: the plain
/// name if it is free, else the numbered name with the least counter that is
/// free, counting from 1.
pub fn unique_name_among(base_name: &str, extension: Option<&str>, existing: &Vec<String>) -> (name:
    String)
    ensures
        exists|attempt: nat|
            name@ == #[trigger] candidate_name(base_name@, opt_view(extension), attempt)
                && !is_taken(existing@, name@) && forall|earlier: nat|
                earlier < attempt ==> is_taken(
                    existing@,
                    #[trigger] candidate_name(base_name@, opt_view(extension), earlier),
                ),
{
    let ghost base = base_name@;
    let ghost ext = opt_view(extension);
    let ghost mut matched: Set<int> = Set::empty();
    let mut name = unique_name_candidate(base_name, extension, 0);
    let mut attempt: u64 = 0;
    let total = existing.len();
    loop
        invariant
            base == base_name@,
            ext == opt_view(extension),
            total == existing@.len(),
            attempt <= total,
            name@ == candidate_name(base, ext, attempt as nat),
            matched.finite(),
            matched.len() == attempt,
            forall|i: int| matched.contains(i) ==> 0 <= i < total,
            forall|i: int|
                matched.contains(i) ==> exists|k: nat|
                    k < attempt && existing@[i]@ == #[trigger] candidate_name(base, ext, k),
            forall|k: nat|
                k < attempt ==> is_taken(existing@, #[trigger] candidate_name(base, ext, k)),
        decreases total - attempt,
    {
        let found = find_taken(existing, &name);
        proof {
            if let Some(i) = found {
                if matched.contains(i as int) {
                    let k = choose|k: nat|
                        k < attempt && existing@[i as int]@ == #[trigger] candidate_name(
                            base,
                            ext,
                            k,
                        );
                    lemma_candidates_distinct(base, ext, k, attempt as nat);
                }
                let grown = matched.insert(i as int);
                lemma_int_range(0, total as int);
                assert(grown.subset_of(set_int_range(0, total as int)));
                lemma_len_subset(grown, set_int_range(0, total as int));
                assert forall|j: int| grown.contains(j) implies exists|k: nat|
                    k < attempt + 1 && existing@[j]@ == #[trigger] candidate_name(
                        base,
                        ext,
                        k,
                    ) by {
                    if j == i {
                        assert(existing@[j]@ == candidate_name(base, ext, attempt as nat));
                    } else {
                        let k = choose|k: nat|
                            k < attempt && existing@[j]@ == #[trigger] candidate_name(
                                base,
                                ext,
                                k,
                            );
                        assert(k < attempt + 1);
                    }
                }
                matched = grown;
            }
        }
        match next_candidate(base_name, extension, attempt, found.is_some()) {
            None => {
                return name;
            },
            Some(next) => {
                name = next;
                attempt += 1;
            },
        }
    }
}

/// Picks a name for an output file that is not taken on disk.
///
/// This is the search of `unique_name_among`, with the disk asked about each
/// name in place of a list: the plain name is tried first, then the numbered
/// names from 1 upwards, and the first name that no file or directory bears
/// at the moment it is asked about is the result. A name is given up only
/// after the disk said that it is taken.
pub fn get_unique_file_name(base_name: &str, extension: Option<&str>) -> (name: String)
    ensures
        exists|attempt: nat| name@ == candidate_name(base_name@, opt_view(extension), attempt),
{
    let mut file_name = unique_name_candidate(base_name, extension, 0);
    let mut attempt: u64 = 0;
    while attempt < u64::MAX
        invariant
            file_name@ == candidate_name(base_name@, opt_view(extension), attempt as nat),
        decreases u64::MAX - attempt,
    {
        let taken = path_exists(file_name.as_str());
        match next_candidate(base_name, extension, attempt, taken) {
            None => {
                return file_name;
            },
            Some(next) => {
                file_name = next;
                attempt += 1;
            },
        }
    }
    file_name
}

} // verus!
