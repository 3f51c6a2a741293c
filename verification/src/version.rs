//! The version resolver: strips an optional leading `v` from the two version
//! strings, parses both as semantic versions, and decides whether the remote
//! one takes precedence over the local one.
//!
//! Parsing is delegated to the `semver` crate; the precedence comparison on
//! the parsed parts is implemented and verified here. Build metadata does not
//! take part in precedence, so it is not kept.

use vstd::prelude::*;

use crate::manifest::Artifact;
use crate::UpdateError;

verus! {

/// The parts of a parsed semantic version that decide precedence. The
/// pre-release is kept as its raw ASCII bytes; an empty `pre` means a real
/// release.
pub struct VersionParts {
    pub major: u64,
    pub minor: u64,
    pub patch: u64,
    pub pre: Vec<u8>,
}

impl VersionParts {
    /// The mathematical value of the parsed parts.
    pub open spec fn model(&self) -> (u64, u64, u64, Seq<u8>) {
        (self.major, self.minor, self.patch, self.pre@)
    }
}

/// What `semver::Version::parse` returns on a given text: `None` where the
/// text is not a valid semantic version, otherwise major, minor, patch and
/// the pre-release bytes.
pub uninterp spec fn parsed_version(s: Seq<char>) -> Option<(u64, u64, u64, Seq<u8>)>;

/// Relies on `semver::Version::parse`: it accepts exactly the valid semantic
/// versions, and the returned fields depend on the text alone.
#[verifier::external_body]
fn parse_semver(s: &str) -> (r: Option<VersionParts>)
    ensures
        match r {
            Some(p) => parsed_version(s@) == Some((p.major, p.minor, p.patch, p.pre@)),
            None => parsed_version(s@) is None,
        },
{
    match semver::Version::parse(s) {
        Ok(v) => Some(VersionParts {
            major: v.major,
            minor: v.minor,
            patch: v.patch,
            pre: v.pre.as_str().as_bytes().to_vec(),
        }),
        Err(_) => None,
    }
}

/// A version string with an optional leading `v` removed.
pub open spec fn stripped(s: Seq<char>) -> Seq<char> {
    if s.len() > 0 && s[0] == 'v' {
        s.drop_first()
    } else {
        s
    }
}

/// A version string is valid when, after stripping the `v`, it parses as a
/// semantic version.
pub open spec fn version_valid(s: Seq<char>) -> bool {
    parsed_version(stripped(s)) is Some
}

/// A pre-release identifier made of digits only.
pub open spec fn is_digits(id: Seq<u8>) -> bool {
    forall|i: int| 0 <= i < id.len() ==> 48 <= #[trigger] id[i] <= 57
}

/// Lexicographic order on byte strings in ASCII sort order; a strict prefix
/// sorts first.
pub open spec fn lex_lt(a: Seq<u8>, b: Seq<u8>) -> bool
    decreases a.len(),
{
    if b.len() == 0 {
        false
    } else if a.len() == 0 {
        true
    } else if a[0] == b[0] {
        lex_lt(a.drop_first(), b.drop_first())
    } else {
        a[0] < b[0]
    }
}

/// Precedence order on single pre-release identifiers: identifiers of digits
/// only compare numerically (equivalently, by length and then lexically,
/// since numeric identifiers carry no leading zeroes) and sort before all
/// others; the rest compare lexically in ASCII sort order.
pub open spec fn id_lt(a: Seq<u8>, b: Seq<u8>) -> bool {
    if is_digits(a) && is_digits(b) {
        a.len() < b.len() || (a.len() == b.len() && lex_lt(a, b))
    } else if is_digits(a) {
        true
    } else if is_digits(b) {
        false
    } else {
        lex_lt(a, b)
    }
}

/// Order on two non-empty lists of pre-release identifiers: identifier by
/// identifier, a smaller set sorting before a larger one with the same
/// prefix.
pub open spec fn list_lt(a: Seq<Seq<u8>>, b: Seq<Seq<u8>>) -> bool
    decreases a.len(),
{
    if b.len() == 0 {
        false
    } else if a.len() == 0 {
        true
    } else if a[0] == b[0] {
        list_lt(a.drop_first(), b.drop_first())
    } else {
        id_lt(a[0], b[0])
    }
}

/// Precedence order on pre-release lists, where the empty list stands for a
/// real release, which sorts after every pre-release.
pub open spec fn pre_lt(a: Seq<Seq<u8>>, b: Seq<Seq<u8>>) -> bool {
    if a.len() == 0 {
        false
    } else if b.len() == 0 {
        true
    } else {
        list_lt(a, b)
    }
}

/// A non-empty byte string split at every dot.
pub open spec fn split_ne(s: Seq<u8>) -> Seq<Seq<u8>>
    decreases s.len(),
{
    if s.len() == 0 {
        seq![Seq::<u8>::empty()]
    } else if s.last() == 46 {
        split_ne(s.drop_last()).push(Seq::<u8>::empty())
    } else {
        let r = split_ne(s.drop_last());
        r.update(r.len() - 1, r.last().push(s.last()))
    }
}

/// The pre-release identifiers carried by a pre-release byte string: none
/// when it is empty, otherwise the dot-separated pieces.
pub open spec fn spec_split(s: Seq<u8>) -> Seq<Seq<u8>> {
    if s.len() == 0 {
        seq![]
    } else {
        split_ne(s)
    }
}

/// Semantic-version precedence: major, minor and patch compare numerically,
/// and on a tie the pre-release lists decide.
pub open spec fn version_lt(a: (u64, u64, u64, Seq<u8>), b: (u64, u64, u64, Seq<u8>)) -> bool {
    if a.0 != b.0 {
        a.0 < b.0
    } else if a.1 != b.1 {
        a.1 < b.1
    } else if a.2 != b.2 {
        a.2 < b.2
    } else {
        pre_lt(spec_split(a.3), spec_split(b.3))
    }
}

/// The remote version string names a strictly greater semantic version than
/// the local one (both taken after stripping an optional leading `v`).
pub open spec fn remote_newer(local: Seq<char>, remote: Seq<char>) -> bool {
    version_lt(
        parsed_version(stripped(local)).unwrap(),
        parsed_version(stripped(remote)).unwrap(),
    )
}

fn strip_v(s: &str) -> (r: &str)
    ensures
        r@ == stripped(s@),
{
    let n = s.unicode_len();
    if n > 0 && s.get_char(0) == 'v' {
        let r = s.substring_char(1, n);
        proof {
            assert(s@.subrange(1, n as int) =~= s@.drop_first());
        }
        r
    } else {
        s
    }
}

fn is_digits_exec(id: &Vec<u8>) -> (r: bool)
    ensures
        r == is_digits(id@),
{
    let n = id.len();
    let mut i: usize = 0;
    while i < n
        invariant
            i <= n,
            n == id@.len(),
            forall|j: int| 0 <= j < i ==> 48 <= #[trigger] id@[j] <= 57,
        decreases n - i,
    {
        if id[i] < 48 || id[i] > 57 {
            return false;
        }
        i += 1;
    }
    true
}

/// Equal prefixes do not decide the lexicographic order: it is settled by
/// what follows them.
proof fn lemma_lex_skip(a: Seq<u8>, b: Seq<u8>, i: int)
    requires
        0 <= i <= a.len(),
        i <= b.len(),
        forall|j: int| 0 <= j < i ==> a[j] == b[j],
    ensures
        lex_lt(a, b) == lex_lt(a.skip(i), b.skip(i)),
    decreases i,
{
    if i > 0 {
        assert(a[0] == b[0]);
        lemma_lex_skip(a.drop_first(), b.drop_first(), i - 1);
        assert(a.drop_first().skip(i - 1) =~= a.skip(i));
        assert(b.drop_first().skip(i - 1) =~= b.skip(i));
    } else {
        assert(a.skip(0) =~= a);
        assert(b.skip(0) =~= b);
    }
}

fn lex_lt_exec(a: &Vec<u8>, b: &Vec<u8>) -> (r: bool)
    ensures
        r == lex_lt(a@, b@),
{
    let na = a.len();
    let nb = b.len();
    let mut i: usize = 0;
    while i < na && i < nb
        invariant
            i <= na,
            i <= nb,
            na == a@.len(),
            nb == b@.len(),
            forall|j: int| 0 <= j < i ==> a@[j] == b@[j],
        decreases na - i,
    {
        if a[i] != b[i] {
            proof {
                lemma_lex_skip(a@, b@, i as int);
            }
            return a[i] < b[i];
        }
        i += 1;
    }
    proof {
        lemma_lex_skip(a@, b@, i as int);
    }
    na < nb
}

fn id_lt_exec(a: &Vec<u8>, b: &Vec<u8>) -> (r: bool)
    ensures
        r == id_lt(a@, b@),
{
    let da = is_digits_exec(a);
    let db = is_digits_exec(b);
    if da && db {
        a.len() < b.len() || (a.len() == b.len() && lex_lt_exec(a, b))
    } else if da {
        true
    } else if db {
        false
    } else {
        lex_lt_exec(a, b)
    }
}

/// The identifier views of a vector of identifiers.
pub open spec fn id_views(s: Seq<Vec<u8>>) -> Seq<Seq<u8>> {
    s.map_values(|v: Vec<u8>| v@)
}

/// Equal prefixes do not decide the order on identifier lists either.
proof fn lemma_list_skip(a: Seq<Seq<u8>>, b: Seq<Seq<u8>>, i: int)
    requires
        0 <= i <= a.len(),
        i <= b.len(),
        forall|j: int| 0 <= j < i ==> a[j] == b[j],
    ensures
        list_lt(a, b) == list_lt(a.skip(i), b.skip(i)),
    decreases i,
{
    if i > 0 {
        assert(a[0] == b[0]);
        lemma_list_skip(a.drop_first(), b.drop_first(), i - 1);
        assert(a.drop_first().skip(i - 1) =~= a.skip(i));
        assert(b.drop_first().skip(i - 1) =~= b.skip(i));
    } else {
        assert(a.skip(0) =~= a);
        assert(b.skip(0) =~= b);
    }
}

fn list_lt_exec(a: &Vec<Vec<u8>>, b: &Vec<Vec<u8>>) -> (r: bool)
    ensures
        r == list_lt(id_views(a@), id_views(b@)),
{
    let na = a.len();
    let nb = b.len();
    let mut i: usize = 0;
    while i < na && i < nb
        invariant
            i <= na,
            i <= nb,
            na == a@.len(),
            nb == b@.len(),
            forall|j: int| 0 <= j < i ==> id_views(a@)[j] == id_views(b@)[j],
        decreases na - i,
    {
        let eq = a[i] == b[i];
        proof {
            if eq {
                assert(a@[i as int]@ =~= b@[i as int]@);
            }
        }
        if !eq {
            proof {
                lemma_list_skip(id_views(a@), id_views(b@), i as int);
                assert(id_views(a@).skip(i as int)[0] == a@[i as int]@);
                assert(id_views(b@).skip(i as int)[0] == b@[i as int]@);
            }
            return id_lt_exec(&a[i], &b[i]);
        }
        i += 1;
    }
    proof {
        lemma_lex_skip_list_tail(a@, b@, i as int);
    }
    na < nb
}

/// After a common prefix of the whole shorter list, only the lengths decide.
proof fn lemma_lex_skip_list_tail(a: Seq<Vec<u8>>, b: Seq<Vec<u8>>, i: int)
    requires
        0 <= i <= a.len(),
        i <= b.len(),
        i == a.len() || i == b.len(),
        forall|j: int| 0 <= j < i ==> id_views(a)[j] == id_views(b)[j],
    ensures
        list_lt(id_views(a), id_views(b)) == (a.len() < b.len()),
{
    lemma_list_skip(id_views(a), id_views(b), i);
}

fn split_ids(pre: &Vec<u8>) -> (r: Vec<Vec<u8>>)
    ensures
        id_views(r@) == spec_split(pre@),
{
    let n = pre.len();
    if n == 0 {
        let r: Vec<Vec<u8>> = Vec::new();
        proof {
            assert(id_views(r@) =~= spec_split(pre@));
        }
        return r;
    }
    let mut acc: Vec<Vec<u8>> = Vec::new();
    acc.push(Vec::new());
    proof {
        assert(pre@.take(0) =~= Seq::<u8>::empty());
        assert(id_views(acc@) =~= split_ne(pre@.take(0)));
    }
    let mut i: usize = 0;
    while i < n
        invariant
            i <= n,
            n == pre@.len(),
            acc@.len() >= 1,
            id_views(acc@) == split_ne(pre@.take(i as int)),
        decreases n - i,
    {
        let ghost prefix = pre@.take(i as int);
        let ghost prefix1 = pre@.take(i as int + 1);
        proof {
            assert(prefix1.drop_last() =~= prefix);
            assert(prefix1.last() == pre@[i as int]);
        }
        let b = pre[i];
        if b == 46 {
            acc.push(Vec::new());
            proof {
                assert(id_views(acc@) =~= split_ne(prefix1));
            }
        } else {
            let mut cur = match acc.pop() {
                Some(c) => c,
                None => Vec::new(),
            };
            cur.push(b);
            acc.push(cur);
            proof {
                let r = split_ne(prefix);
                assert(id_views(acc@) =~= r.update(r.len() - 1, r.last().push(pre@[i as int])));
                assert(id_views(acc@) =~= split_ne(prefix1));
            }
        }
        i += 1;
    }
    proof {
        assert(pre@.take(n as int) =~= pre@);
    }
    acc
}

/// Decides semantic-version precedence on parsed parts.
pub fn precedence_lt(a: &VersionParts, b: &VersionParts) -> (r: bool)
    ensures
        r == version_lt(a.model(), b.model()),
{
    if a.major != b.major {
        a.major < b.major
    } else if a.minor != b.minor {
        a.minor < b.minor
    } else if a.patch != b.patch {
        a.patch < b.patch
    } else {
        let pa = split_ids(&a.pre);
        let pb = split_ids(&b.pre);
        if pa.len() == 0 {
            false
        } else if pb.len() == 0 {
            true
        } else {
            list_lt_exec(&pa, &pb)
        }
    }
}

/// Decides whether the remote artifact carries a strictly newer version than
/// the local one: both version strings, with an optional leading `v`
/// stripped, must be valid semantic versions, and then the remote one must
/// take strict precedence. A string that does not parse is an error, never a
/// silent `false`.
pub fn is_remote_newer(name: &str, local_artifact: &Artifact, remote_artifact: &Artifact) -> (r:
    Result<bool, UpdateError>)
    ensures
        r is Ok <==> version_valid(local_artifact.version@) && version_valid(
            remote_artifact.version@,
        ),
        r matches Ok(b) ==> b == remote_newer(local_artifact.version@, remote_artifact.version@),
        r is Err ==> r matches Err(UpdateError::VersionParse),
{
    let remote = match parse_semver(strip_v(remote_artifact.version.as_str())) {
        Some(p) => p,
        None => {
            return Err(UpdateError::VersionParse);
        },
    };
    let local = match parse_semver(strip_v(local_artifact.version.as_str())) {
        Some(p) => p,
        None => {
            return Err(UpdateError::VersionParse);
        },
    };
    let _ = name;
    Ok(precedence_lt(&local, &remote))
}

/// No byte string sorts lexicographically before itself.
pub proof fn lemma_lex_lt_irreflexive(a: Seq<u8>)
    ensures
        !lex_lt(a, a),
    decreases a.len(),
{
    if a.len() > 0 {
        lemma_lex_lt_irreflexive(a.drop_first());
    }
}

/// No identifier list sorts before itself.
pub proof fn lemma_list_lt_irreflexive(a: Seq<Seq<u8>>)
    ensures
        !list_lt(a, a),
    decreases a.len(),
{
    if a.len() > 0 {
        lemma_list_lt_irreflexive(a.drop_first());
    }
}

/// Equal versions never count as an upgrade: precedence is a strict order,
/// so a version is never strictly greater than itself.
pub proof fn lemma_version_lt_irreflexive(v: (u64, u64, u64, Seq<u8>))
    ensures
        !version_lt(v, v),
{
    lemma_list_lt_irreflexive(spec_split(v.3));
}

} // verus!
