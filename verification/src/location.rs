//! Resolution of what a user typed into a remote address and a local name.

use vstd::prelude::*;
use vstd::string::*;
use crate::text::{followed_by, push_char};

verus! {

/// The address under which packages named by a shorthand are looked up.
pub open spec fn base_url() -> Seq<char> {
    "https://aur.archlinux.org/"@
}

/// The character that stands in a local name where the address has a path
/// separator.
pub const ID_SEPARATOR: char = '_';

/// Whether `c` ends the scheme of an address.
pub open spec fn is_scheme_delimiter(c: char) -> bool {
    c == ':' || c == '/'
}

/// Whether `c` separates the components of a path.
pub open spec fn is_path_separator(c: char) -> bool {
    c == '/'
}

/// The index of the first `:` or `/` of `s` at or after `from`, or the length
/// of `s` where there is none.
pub open spec fn delimiter_from(s: Seq<char>, from: int) -> int
    decreases s.len() - from,
{
    if from < 0 || from >= s.len() || is_scheme_delimiter(s[from]) {
        from
    } else {
        delimiter_from(s, from + 1)
    }
}

/// The number of characters of `s` before its first `:` or `/`.
pub open spec fn scheme_len(s: Seq<char>) -> int {
    delimiter_from(s, 0)
}

/// Whether `s` is a fully qualified address: a non-empty scheme free of `:`
/// and `/`, followed by `://`.
pub open spec fn has_scheme(s: Seq<char>) -> bool {
    let k = scheme_len(s);
    &&& 1 <= k
    &&& k + 3 <= s.len()
    &&& s[k] == ':'
    &&& s[k + 1] == '/'
    &&& s[k + 2] == '/'
}

/// What follows the scheme and its `://` in a fully qualified address.
pub open spec fn after_scheme(s: Seq<char>) -> Seq<char> {
    s.subrange(scheme_len(s) + 3, s.len() as int)
}

/// `s` without the slashes at its end.
pub open spec fn trim_trailing_slashes(s: Seq<char>) -> Seq<char>
    decreases s.len(),
{
    if s.len() > 0 && s.last() == '/' {
        trim_trailing_slashes(s.drop_last())
    } else {
        s
    }
}

/// `s` with `ID_SEPARATOR` in place of each path separator.
pub open spec fn flatten(s: Seq<char>) -> Seq<char> {
    s.map_values(|c: char| if is_path_separator(c) { ID_SEPARATOR } else { c })
}

/// Whether `s` holds no path separator.
pub open spec fn is_separator_free(s: Seq<char>) -> bool {
    forall|i: int| 0 <= i < s.len() ==> !is_path_separator(#[trigger] s[i])
}

/// Whether `id` names one directory below another: it is not empty, holds no
/// path separator, and is neither the directory itself nor its parent.
pub open spec fn names_directory(id: Seq<char>) -> bool {
    id.len() > 0 && id != "."@ && id != ".."@ && is_separator_free(id)
}

/// The remote address that an input stands for: the input itself where it is
/// fully qualified, and otherwise the base address followed by the input.
pub open spec fn remote_url_of(input: Seq<char>) -> Seq<char> {
    if has_scheme(input) {
        input
    } else {
        base_url() + input
    }
}

/// The local name of a fully qualified address: what follows its scheme,
/// without trailing slashes, and with the remaining path separators replaced.
pub open spec fn id_of(remote_url: Seq<char>) -> Seq<char> {
    flatten(trim_trailing_slashes(after_scheme(remote_url)))
}

/// What a `Location` holds, as sequences of characters.
pub ghost struct LocationView {
    /// What the user typed.
    pub raw: Seq<char>,
    /// The address that a clone is made from.
    pub remote_url: Seq<char>,
    /// The name of the working copy under the source root.
    pub id: Seq<char>,
}

/// The location that an input resolves to.
pub open spec fn location_of(input: Seq<char>) -> LocationView {
    LocationView {
        raw: input,
        remote_url: remote_url_of(input),
        id: id_of(remote_url_of(input)),
    }
}

/// Whether an input names a location: it is not empty, and the local name
/// that it stands for names a directory below the source root.
pub open spec fn names_location(input: Seq<char>) -> bool {
    input.len() > 0 && names_directory(id_of(remote_url_of(input)))
}

/// Whether the address and the name of `v` are those that its input stands
/// for, and the name is that of a directory below the source root.
pub open spec fn is_resolved(v: LocationView) -> bool {
    v == location_of(v.raw) && names_directory(v.id)
}

/// Why an input names no location.
#[derive(Clone, Copy, Debug, PartialEq, Eq, Structural)]
pub enum ParseError {
    /// The input is empty.
    Empty,
    /// The address has no path that could name a working copy: its local name
    /// would be empty, `.` or `..`.
    NoDirectory,
}

/// A resolved package source: an address to clone from and the name of the
/// working copy. Once made it does not change.
#[derive(Debug)]
pub struct Location {
    raw: String,
    remote_url: String,
    id: String,
}

impl View for Location {
    type V = LocationView;

    closed spec fn view(&self) -> LocationView {
        LocationView { raw: self.raw@, remote_url: self.remote_url@, id: self.id@ }
    }
}

/// The views of the locations of a vector, in order.
pub open spec fn location_views(v: Seq<Location>) -> Seq<LocationView> {
    v.map_values(|l: Location| l@)
}

/// The local names of the locations of a vector, in order.
pub open spec fn location_ids(v: Seq<Location>) -> Seq<Seq<char>> {
    v.map_values(|l: Location| l@.id)
}

/// `osoy::location::ParseLocationError`, which says no more than that an
/// input names no location.
#[verifier::external_type_specification]
#[verifier::external_body]
pub struct ExParseLocationError(osoy::location::ParseLocationError);

/// Reads `input` with `osoy::Location::from_str` and asks the location for its
/// `id()`. The parser refuses the empty input and no other. For an input that
/// starts with a scheme and `://` it keeps the scheme apart and splits the
/// rest at each `/`; `id()` joins those parts with `/` again, which gives the
/// rest back.
#[verifier::external_body]
fn location_id(input: &str) -> (r: Result<String, osoy::location::ParseLocationError>)
    ensures
        r is Err <==> input@.len() == 0,
        r matches Ok(id) ==> has_scheme(input@) ==> id@ == after_scheme(input@),
{
    match <osoy::Location as std::str::FromStr>::from_str(input) {
        Ok(location) => Ok(location.id()),
        Err(e) => Err(e),
    }
}

/// A longer sequence has the first delimiter of its prefix, where the prefix
/// has one.
pub proof fn lemma_delimiter_of_prefix(a: Seq<char>, b: Seq<char>, from: int)
    requires
        0 <= from,
        delimiter_from(a, from) < a.len(),
    ensures
        delimiter_from(a + b, from) == delimiter_from(a, from),
    decreases a.len() - from,
{
    if from < a.len() {
        assert((a + b)[from] == a[from]);
        if !is_scheme_delimiter(a[from]) {
            lemma_delimiter_of_prefix(a, b, from + 1);
        }
    }
}

/// The base address is fully qualified, and so is whatever starts with it.
pub proof fn lemma_base_has_scheme(rest: Seq<char>)
    ensures
        base_url().len() == 26,
        has_scheme(base_url() + rest),
        scheme_len(base_url() + rest) == 5,
        after_scheme(base_url() + rest) == "aur.archlinux.org/"@ + rest,
{
    reveal_strlit("https://aur.archlinux.org/");
    reveal_strlit("aur.archlinux.org/");
    let b = base_url();
    assert(delimiter_from(b, 0) == 5) by {
        reveal_with_fuel(delimiter_from, 7);
    }
    lemma_delimiter_of_prefix(b, rest, 0);
    let s = b + rest;
    assert(s[5] == b[5] && s[6] == b[6] && s[7] == b[7]);
    assert(s.subrange(8, s.len() as int) =~= "aur.archlinux.org/"@ + rest);
}

/// Every remote address is fully qualified.
pub proof fn lemma_remote_url_has_scheme(input: Seq<char>)
    ensures
        has_scheme(remote_url_of(input)),
        remote_url_of(remote_url_of(input)) == remote_url_of(input),
{
    if !has_scheme(input) {
        lemma_base_has_scheme(input);
    }
}

/// A local name holds no path separator.
pub proof fn lemma_id_is_separator_free(remote_url: Seq<char>)
    ensures
        is_separator_free(id_of(remote_url)),
{
}

/// The local name of the base address names a directory.
pub proof fn lemma_base_names_directory()
    ensures
        id_of(base_url()) == "aur.archlinux.org"@,
        names_directory(id_of(base_url())),
{
    reveal_strlit("aur.archlinux.org/");
    reveal_strlit("aur.archlinux.org");
    reveal_strlit(".");
    reveal_strlit("..");
    lemma_base_has_scheme(Seq::<char>::empty());
    assert(base_url() + Seq::<char>::empty() =~= base_url());
    let path = "aur.archlinux.org/"@;
    assert(path + Seq::<char>::empty() =~= path);
    assert(path.drop_last() =~= "aur.archlinux.org"@);
    assert(trim_trailing_slashes(path) == "aur.archlinux.org"@) by {
        reveal_with_fuel(trim_trailing_slashes, 3);
    }
    assert(flatten("aur.archlinux.org"@) =~= "aur.archlinux.org"@);
}

/// A location has a local name that names exactly one directory below the
/// source root.
pub proof fn lemma_location_names_directory(v: LocationView)
    requires
        is_resolved(v),
    ensures
        names_directory(v.id),
        v.id.len() > 0,
        is_separator_free(v.id),
        v.id == id_of(v.remote_url),
{
}

/// Two locations with the same remote address have the same local name.
pub proof fn lemma_same_url_same_id(a: LocationView, b: LocationView)
    requires
        is_resolved(a),
        is_resolved(b),
        a.remote_url == b.remote_url,
    ensures
        a.id == b.id,
{
}

/// Resolving an input always gives the same location: equal inputs resolve to
/// equal remote addresses and equal local names.
pub proof fn lemma_resolution_is_stable(input1: Seq<char>, input2: Seq<char>)
    requires
        input1 == input2,
    ensures
        location_of(input1) == location_of(input2),
        location_of(input1).id == location_of(input2).id,
        names_location(input1) == names_location(input2),
{
}

/// The base address as text.
pub fn base_text() -> (r: &'static str)
    ensures
        r@ == base_url(),
{
    "https://aur.archlinux.org/"
}

/// The number of characters of `s` before its first `:` or `/`.
pub fn find_scheme_end(s: &str) -> (k: usize)
    ensures
        k == scheme_len(s@),
        k <= s@.len(),
{
    let n = s.unicode_len();
    let mut i: usize = 0;
    while i < n
        invariant
            n == s@.len(),
            0 <= i <= n,
            delimiter_from(s@, 0) == delimiter_from(s@, i as int),
        decreases n - i,
    {
        let c = s.get_char(i);
        if c == ':' || c == '/' {
            return i;
        }
        i = i + 1;
    }
    i
}

/// Whether `s` is a fully qualified address.
pub fn is_qualified(s: &str) -> (b: bool)
    ensures
        b == has_scheme(s@),
{
    let n = s.unicode_len();
    let k = find_scheme_end(s);
    if k < 1 || n - k < 3 {
        return false;
    }
    s.get_char(k) == ':' && s.get_char(k + 1) == '/' && s.get_char(k + 2) == '/'
}

/// The local name made of `path`, which is an address without its scheme.
pub fn normalize_id(path: &str) -> (id: String)
    ensures
        id@ == flatten(trim_trailing_slashes(path@)),
        is_separator_free(id@),
{
    let n = path.unicode_len();
    let mut end: usize = n;
    proof {
        assert(path@.subrange(0, n as int) =~= path@);
    }
    while end > 0 && path.get_char(end - 1) == '/'
        invariant
            n == path@.len(),
            end <= n,
            trim_trailing_slashes(path@) == trim_trailing_slashes(path@.subrange(0, end as int)),
        decreases end,
    {
        proof {
            let cur = path@.subrange(0, end as int);
            assert(cur.last() == path@[end - 1]);
            assert(cur.drop_last() =~= path@.subrange(0, end - 1));
        }
        end = end - 1;
    }
    proof {
        let cur = path@.subrange(0, end as int);
        if end > 0 {
            assert(cur.last() == path@[end - 1]);
        }
        assert(trim_trailing_slashes(cur) == cur);
    }
    let ghost kept = path@.subrange(0, end as int);
    let mut id = String::new();
    let mut i: usize = 0;
    while i < end
        invariant
            n == path@.len(),
            i <= end <= n,
            kept == path@.subrange(0, end as int),
            id@ == flatten(kept.subrange(0, i as int)),
        decreases end - i,
    {
        let c = path.get_char(i);
        let ghost before = id@;
        if c == '/' {
            push_char(&mut id, ID_SEPARATOR);
        } else {
            push_char(&mut id, c);
        }
        proof {
            assert(kept[i as int] == c);
            assert(id@ =~= flatten(kept.subrange(0, i + 1)));
        }
        i = i + 1;
    }
    proof {
        assert(kept.subrange(0, end as int) =~= kept);
    }
    id
}

impl Location {
    #[verifier::type_invariant]
    spec fn resolved(self) -> bool {
        is_resolved(self@)
    }

    /// The location that stands for the base address with nothing below it.
    pub fn base() -> (l: Location)
        ensures
            l@ == location_of(Seq::<char>::empty()),
            l@.remote_url == base_url(),
            l@.raw.len() == 0,
            names_directory(l@.id),
    {
        proof {
            lemma_base_names_directory();
            assert(base_url() + Seq::<char>::empty() =~= base_url());
            assert(!has_scheme(Seq::<char>::empty()));
            reveal_strlit("aur.archlinux.org");
            assert(flatten("aur.archlinux.org"@) =~= "aur.archlinux.org"@);
            assert(trim_trailing_slashes("aur.archlinux.org"@) == "aur.archlinux.org"@);
        }
        Location {
            raw: String::new(),
            remote_url: base_text().to_owned(),
            id: normalize_id("aur.archlinux.org"),
        }
    }

    /// What the user typed.
    pub fn raw(&self) -> (r: &str)
        ensures
            r@ == self@.raw,
    {
        self.raw.as_str()
    }

    /// The address that a clone is made from.
    pub fn remote_url(&self) -> (r: &str)
        ensures
            r@ == self@.remote_url,
            r@ == remote_url_of(self@.raw),
            has_scheme(r@),
    {
        proof {
            use_type_invariant(self);
            lemma_remote_url_has_scheme(self@.raw);
        }
        self.remote_url.as_str()
    }

    /// The name of the working copy under the source root.
    pub fn id(&self) -> (r: &str)
        ensures
            r@ == self@.id,
            r@ == id_of(self@.remote_url),
            names_directory(r@),
    {
        proof {
            use_type_invariant(self);
        }
        self.id.as_str()
    }

    /// Whether this is the location of the base address itself.
    pub fn is_base(&self) -> (b: bool)
        ensures
            b == (self@.remote_url == base_url()),
    {
        let base = base_text().to_owned();
        base == self.remote_url
    }

    /// A copy of this location.
    pub fn duplicate(&self) -> (l: Location)
        ensures
            l@ == self@,
    {
        proof {
            use_type_invariant(self);
        }
        Location {
            raw: self.raw.clone(),
            remote_url: self.remote_url.clone(),
            id: self.id.clone(),
        }
    }
}

/// Whether `id` names one directory below another.
pub fn is_directory_name(id: &str) -> (b: bool)
    ensures
        b == names_directory(id@),
{
    let n = id.unicode_len();
    if n == 0 {
        return false;
    }
    let name = id.to_owned();
    if name == ".".to_owned() || name == "..".to_owned() {
        return false;
    }
    let mut i: usize = 0;
    while i < n
        invariant
            n == id@.len(),
            0 <= i <= n,
            forall|j: int| 0 <= j < i ==> !is_path_separator(#[trigger] id@[j]),
        decreases n - i,
    {
        if id.get_char(i) == '/' {
            return false;
        }
        i = i + 1;
    }
    true
}

/// Resolves what a user typed. A fully qualified address is taken as it
/// stands; anything else is looked up under the base address. The local name
/// is what follows the scheme of the address, without the slashes at its end
/// and with `ID_SEPARATOR` for each slash that is left. The empty input names
/// nothing, and neither does an address whose local name would not name a
/// directory below the source root.
pub fn resolve(input: &str) -> (r: Result<Location, ParseError>)
    ensures
        r is Ok <==> names_location(input@),
        r matches Err(e) ==> (e == ParseError::Empty <==> input@.len() == 0),
        r matches Ok(l) ==> l@ == location_of(input@) && names_directory(l@.id),
{
    match location_id(input) {
        Err(_) => {
            return Err(ParseError::Empty);
        },
        Ok(_) => {},
    }
    let remote_url = if is_qualified(input) {
        input.to_owned()
    } else {
        followed_by(base_text(), input)
    };
    proof {
        lemma_remote_url_has_scheme(input@);
        lemma_base_has_scheme(input@);
    }
    match location_id(remote_url.as_str()) {
        Ok(path) => {
            let id = normalize_id(path.as_str());
            if is_directory_name(id.as_str()) {
                Ok(Location { raw: input.to_owned(), remote_url, id })
            } else {
                Err(ParseError::NoDirectory)
            }
        },
        Err(_) => Err(ParseError::Empty),
    }
}

} // verus!
