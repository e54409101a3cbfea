//! Selection of the working copies under the source root that the targets of a
//! command name.
//!
//! The caller lists the source root and hands over the names of its entries.
//! A working copy is selected once, however many targets name it, and the
//! selected names keep the order of the listing.

use vstd::prelude::*;
use vstd::string::*;
use crate::location::{base_url, location_ids, location_views, Location, LocationView};
use crate::text::{followed_by, texts};

verus! {

/// `regex::Regex`, a compiled regular expression. Nothing inside it is seen
/// here.
#[verifier::external_type_specification]
#[verifier::external_body]
pub struct ExRegex(regex::Regex);

/// `regex::Error`, the reason why a pattern does not compile.
#[verifier::external_type_specification]
#[verifier::external_body]
pub struct ExRegexError(regex::Error);

/// Whether the expression finds a match somewhere in `text`: what
/// `regex::Regex::is_match` returns.
pub uninterp spec fn regex_accepts(re: regex::Regex, text: Seq<char>) -> bool;

/// Whether an expression that `regex::Regex::new` makes of `pattern` finds a
/// match somewhere in `text`.
pub uninterp spec fn pattern_accepts(pattern: Seq<char>, text: Seq<char>) -> bool;

/// Compiles `pattern` with `regex::Regex::new`. Nothing is said of when that
/// succeeds: at the size limit it can depend on the machine. An expression
/// that comes back matches what its pattern says, on every text.
#[verifier::external_body]
fn compile(pattern: &str) -> (r: Result<regex::Regex, regex::Error>)
    ensures
        r matches Ok(re) ==> forall|text: Seq<char>| #[trigger]
            regex_accepts(re, text) == pattern_accepts(pattern@, text),
{
    regex::Regex::new(pattern)
}

/// Asks `regex::Regex::is_match` whether the expression matches somewhere in
/// `text`.
#[verifier::external_body]
fn is_match(re: &regex::Regex, text: &str) -> (b: bool)
    ensures
        b == regex_accepts(*re, text@),
{
    re.is_match(text)
}

/// The pattern that matches exactly the texts that `pattern` matches from
/// their first character to their last.
pub open spec fn anchored(pattern: Seq<char>) -> Seq<char> {
    "^(?:"@ + pattern + ")$"@
}

/// Whether the target named `id` selects the entry named `name`.
pub open spec fn target_accepts(id: Seq<char>, name: Seq<char>, use_regex: bool) -> bool {
    if use_regex {
        pattern_accepts(anchored(id), name)
    } else {
        id == name
    }
}

/// Whether one of the targets selects the entry named `name`.
pub open spec fn is_selected(ids: Seq<Seq<char>>, name: Seq<char>, use_regex: bool) -> bool {
    exists|j: int| 0 <= j < ids.len() && target_accepts(#[trigger] ids[j], name, use_regex)
}

/// The entries that the targets select, in the order of the listing.
pub open spec fn matching(entries: Seq<Seq<char>>, ids: Seq<Seq<char>>, use_regex: bool) -> Seq<
    Seq<char>,
> {
    entries.filter(|name: Seq<char>| is_selected(ids, name, use_regex))
}

/// Whether one of the expressions finds a match in `name`. A pattern that was
/// refused accepts nothing.
pub open spec fn is_accepted(compiled: Seq<Result<regex::Regex, String>>, name: Seq<char>) -> bool {
    exists|j: int|
        0 <= j < compiled.len() && (#[trigger] compiled[j] matches Ok(re) && regex_accepts(
            re,
            name,
        ))
}

/// Whether `index` is the first pattern that was refused.
pub open spec fn is_first_refused(compiled: Seq<Result<regex::Regex, String>>, index: int) -> bool {
    &&& 0 <= index < compiled.len()
    &&& compiled[index] is Err
    &&& forall|j: int| 0 <= j < index ==> (#[trigger] compiled[j]) is Ok
}

/// Whether one of the patterns was refused.
pub open spec fn has_refused(compiled: Seq<Result<regex::Regex, String>>) -> bool {
    exists|j: int| 0 <= j < compiled.len() && (#[trigger] compiled[j]) is Err
}

/// A target that is no regular expression. It fails the whole selection.
#[derive(Debug)]
pub struct PatternError {
    /// The position of the first such target.
    pub index: usize,
    /// Its text.
    pub pattern: String,
}

/// Two conditions that hold of the same values keep the same elements.
proof fn lemma_filter_by_equal_conditions<A>(
    s: Seq<A>,
    p: spec_fn(A) -> bool,
    q: spec_fn(A) -> bool,
)
    requires
        forall|x: A| #[trigger] p(x) == q(x),
    ensures
        s.filter(p) == s.filter(q),
    decreases s.len(),
{
    reveal(Seq::filter);
    if s.len() > 0 {
        lemma_filter_by_equal_conditions(s.drop_last(), p, q);
    }
}

/// No target selects nothing.
pub proof fn lemma_no_target_selects_nothing(entries: Seq<Seq<char>>, use_regex: bool)
    ensures
        matching(entries, Seq::<Seq<char>>::empty(), use_regex) == Seq::<Seq<char>>::empty(),
    decreases entries.len(),
{
    reveal(Seq::filter);
    if entries.len() > 0 {
        lemma_no_target_selects_nothing(entries.drop_last(), use_regex);
    }
}

/// Every selected entry is an entry of the listing that a target accepts, and
/// every such entry is selected.
pub proof fn lemma_matching_selects(
    entries: Seq<Seq<char>>,
    ids: Seq<Seq<char>>,
    use_regex: bool,
    name: Seq<char>,
)
    ensures
        matching(entries, ids, use_regex).contains(name) <==> entries.contains(name) && is_selected(
            ids,
            name,
            use_regex,
        ),
{
    let pred = |name: Seq<char>| is_selected(ids, name, use_regex);
    if matching(entries, ids, use_regex).contains(name) {
        entries.lemma_filter_contains_rev(pred, name);
    }
    if entries.contains(name) && is_selected(ids, name, use_regex) {
        let i = choose|i: int| 0 <= i < entries.len() && entries[i] == name;
        entries.lemma_filter_contains(pred, i);
    }
}

/// The selection goes through the listing entry by entry: an entry that a
/// target accepts comes out once where it stands, one that no target accepts
/// does not come out, and the selection of a longer listing is that of its
/// parts, one after the other. So the selected names keep the order of the
/// listing, and each comes as often as the listing has it.
pub proof fn lemma_matching_entry_by_entry(
    first: Seq<Seq<char>>,
    second: Seq<Seq<char>>,
    name: Seq<char>,
    ids: Seq<Seq<char>>,
    use_regex: bool,
)
    ensures
        matching(first + second, ids, use_regex) == matching(first, ids, use_regex) + matching(
            second,
            ids,
            use_regex,
        ),
        matching(seq![name], ids, use_regex) == if is_selected(ids, name, use_regex) {
            seq![name]
        } else {
            Seq::<Seq<char>>::empty()
        },
{
    let pred = |name: Seq<char>| is_selected(ids, name, use_regex);
    Seq::filter_distributes_over_add(first, second, pred);
    reveal(Seq::filter);
    let none = Seq::<Seq<char>>::empty();
    assert(seq![name] =~= none.push(name));
    none.lemma_filter_push(name, pred);
    assert(none.filter(pred) =~= none);
    assert(none.push(name) =~= seq![name]);
}

/// Without patterns, a target selects the entry that has its name and no
/// other.
pub proof fn lemma_exact_selection(ids: Seq<Seq<char>>, name: Seq<char>)
    ensures
        is_selected(ids, name, false) <==> ids.contains(name),
{
    if ids.contains(name) {
        let j = choose|j: int| 0 <= j < ids.len() && ids[j] == name;
        assert(target_accepts(ids[j], name, false));
    }
}

/// The pattern `id` between the anchors.
fn anchor(id: &str) -> (r: String)
    ensures
        r@ == anchored(id@),
{
    let opened = followed_by("^(?:", id);
    followed_by(opened.as_str(), ")$")
}

/// Whether the expressions of `compiled` below `upto` answer as the targets
/// between the anchors, and the refused ones carry the text of their target.
pub open spec fn compiled_from(
    compiled: Seq<Result<regex::Regex, String>>,
    ids: Seq<Seq<char>>,
    upto: int,
) -> bool {
    forall|k: int|
        0 <= k < upto ==> match #[trigger] compiled[k] {
            Ok(re) => forall|text: Seq<char>| #[trigger]
                regex_accepts(re, text) == pattern_accepts(anchored(ids[k]), text),
            Err(pattern) => pattern@ == ids[k],
        }
}

/// Compiles each target between the anchors. A target that does not compile
/// by itself or between the anchors is handed back as text.
fn compile_targets(targets: &Vec<Location>) -> (compiled: Vec<Result<regex::Regex, String>>)
    ensures
        compiled.len() == targets.len(),
        compiled_from(compiled@, location_ids(targets@), targets.len() as int),
{
    let ghost ids = location_ids(targets@);
    let mut compiled: Vec<Result<regex::Regex, String>> = Vec::new();
    let mut j: usize = 0;
    while j < targets.len()
        invariant
            ids == location_ids(targets@),
            0 <= j <= targets.len(),
            compiled.len() == j,
            compiled_from(compiled@, ids, j as int),
        decreases targets.len() - j,
    {
        let id = targets[j].id();
        assert(id@ == ids[j as int]);
        let ghost before = compiled@;
        let outcome = match compile(id) {
            Ok(_) => match compile(anchor(id).as_str()) {
                Ok(re) => Ok(re),
                Err(_) => Err(id.to_owned()),
            },
            Err(_) => Err(id.to_owned()),
        };
        compiled.push(outcome);
        proof {
            assert forall|k: int| 0 <= k < j + 1 implies match #[trigger] compiled@[k] {
                Ok(re) => forall|text: Seq<char>| #[trigger]
                    regex_accepts(re, text) == pattern_accepts(anchored(ids[k]), text),
                Err(pattern) => pattern@ == ids[k],
            } by {
                if k < j {
                    assert(compiled@[k] == before[k]);
                }
            }
        }
        j = j + 1;
    }
    compiled
}

/// Whether one of the expressions finds a match in `name`.
fn accepts(compiled: &Vec<Result<regex::Regex, String>>, name: &str) -> (b: bool)
    ensures
        b == is_accepted(compiled@, name@),
{
    let mut j: usize = 0;
    while j < compiled.len()
        invariant
            0 <= j <= compiled.len(),
            forall|k: int|
                0 <= k < j ==> !(#[trigger] compiled@[k] matches Ok(re) && regex_accepts(
                    re,
                    name@,
                )),
        decreases compiled.len() - j,
    {
        let found = match &compiled[j] {
            Ok(re) => is_match(re, name),
            Err(_) => false,
        };
        if found {
            return true;
        }
        j = j + 1;
    }
    false
}

/// The entries that compiled patterns select. Where a pattern was refused the
/// selection fails and names the first such pattern; otherwise an entry is
/// selected where one of the expressions finds a match in its name.
pub fn select_compiled(entries: &Vec<String>, compiled: &Vec<Result<regex::Regex, String>>) -> (r:
    Result<Vec<String>, PatternError>)
    ensures
        r is Err <==> has_refused(compiled@),
        r matches Err(e) ==> is_first_refused(compiled@, e.index as int) && (compiled@[e.index
            as int] matches Err(pattern) && e.pattern@ == pattern@),
        r matches Ok(found) ==> texts(found@) == texts(entries@).filter(
            |name: Seq<char>| is_accepted(compiled@, name),
        ),
{
    let mut j: usize = 0;
    while j < compiled.len()
        invariant
            0 <= j <= compiled.len(),
            forall|k: int| 0 <= k < j ==> (#[trigger] compiled@[k]) is Ok,
        decreases compiled.len() - j,
    {
        match &compiled[j] {
            Err(pattern) => {
                return Err(PatternError { index: j, pattern: pattern.clone() });
            },
            Ok(_) => {},
        }
        j = j + 1;
    }
    let ghost names = texts(entries@);
    let ghost pred = |name: Seq<char>| is_accepted(compiled@, name);
    let mut found: Vec<String> = Vec::new();
    let mut i: usize = 0;
    proof {
        reveal(Seq::filter);
        assert(names.subrange(0, 0) =~= Seq::<Seq<char>>::empty());
        assert(texts(found@) =~= Seq::<Seq<char>>::empty());
    }
    while i < entries.len()
        invariant
            names == texts(entries@),
            pred == (|name: Seq<char>| is_accepted(compiled@, name)),
            0 <= i <= entries.len(),
            texts(found@) == names.subrange(0, i as int).filter(pred),
        decreases entries.len() - i,
    {
        let name = &entries[i];
        let ghost before = found@;
        let selected = accepts(compiled, name.as_str());
        if selected {
            found.push(name.clone());
        }
        proof {
            let prefix = names.subrange(0, i as int);
            assert(names.subrange(0, i + 1) =~= prefix.push(names[i as int]));
            prefix.lemma_filter_push(names[i as int], pred);
            if selected {
                assert(texts(found@) =~= texts(before).push(name@));
            }
        }
        i = i + 1;
    }
    proof {
        assert(names.subrange(0, entries.len() as int) =~= names);
    }
    Ok(found)
}

/// The entries whose name is the local name of a target.
pub fn select_exact(entries: &Vec<String>, targets: &Vec<Location>) -> (found: Vec<String>)
    ensures
        texts(found@) == matching(texts(entries@), location_ids(targets@), false),
{
    let ghost ids = location_ids(targets@);
    let ghost names = texts(entries@);
    let ghost pred = |name: Seq<char>| is_selected(ids, name, false);
    let mut found: Vec<String> = Vec::new();
    let mut i: usize = 0;
    proof {
        reveal(Seq::filter);
        assert(names.subrange(0, 0) =~= Seq::<Seq<char>>::empty());
        assert(texts(found@) =~= Seq::<Seq<char>>::empty());
    }
    while i < entries.len()
        invariant
            ids == location_ids(targets@),
            names == texts(entries@),
            pred == (|name: Seq<char>| is_selected(ids, name, false)),
            0 <= i <= entries.len(),
            texts(found@) == names.subrange(0, i as int).filter(pred),
        decreases entries.len() - i,
    {
        let name = &entries[i];
        let ghost before = found@;
        let mut selected = false;
        let mut j: usize = 0;
        while j < targets.len() && !selected
            invariant
                ids == location_ids(targets@),
                0 <= j <= targets.len(),
                selected ==> is_selected(ids, name@, false),
                !selected ==> forall|k: int|
                    0 <= k < j ==> !target_accepts(#[trigger] ids[k], name@, false),
            decreases targets.len() - j + (if selected { 0int } else { 1int }),
        {
            let id = targets[j].id();
            assert(id@ == ids[j as int]);
            if id.to_owned() == *name {
                assert(target_accepts(ids[j as int], name@, false));
                selected = true;
            }
            j = j + 1;
        }
        if selected {
            found.push(name.clone());
        }
        proof {
            let prefix = names.subrange(0, i as int);
            assert(names.subrange(0, i + 1) =~= prefix.push(names[i as int]));
            prefix.lemma_filter_push(names[i as int], pred);
            if selected {
                assert(texts(found@) =~= texts(before).push(name@));
            }
        }
        i = i + 1;
    }
    proof {
        assert(names.subrange(0, entries.len() as int) =~= names);
    }
    found
}

/// The entries of the listing that the targets select. Without `use_regex` a
/// target selects the entry whose name is its local name, and the selection
/// always succeeds. With it, the local name is a regular expression and
/// selects the names that it matches from their first character to their
/// last; a target that does not compile, by itself or between the anchors,
/// fails the whole selection.
pub fn matching_existing(entries: &Vec<String>, targets: &Vec<Location>, use_regex: bool) -> (r:
    Result<Vec<String>, PatternError>)
    ensures
        !use_regex || targets.len() == 0 ==> r is Ok,
        r matches Ok(found) ==> texts(found@) == matching(
            texts(entries@),
            location_ids(targets@),
            use_regex,
        ),
        r matches Ok(found) ==> targets.len() == 0 ==> found.len() == 0,
        r matches Err(e) ==> e.index < targets.len() && e.pattern@ == location_ids(
            targets@,
        )[e.index as int],
{
    let ghost ids = location_ids(targets@);
    let ghost names = texts(entries@);
    proof {
        if targets.len() == 0 {
            assert(ids =~= Seq::<Seq<char>>::empty());
            lemma_no_target_selects_nothing(names, use_regex);
        }
    }
    if !use_regex {
        return Ok(select_exact(entries, targets));
    }
    let compiled = compile_targets(targets);
    let selection = select_compiled(entries, &compiled);
    proof {
        if selection is Ok {
            let by_expression = |name: Seq<char>| is_accepted(compiled@, name);
            let by_pattern = |name: Seq<char>| is_selected(ids, name, true);
            assert forall|name: Seq<char>| #[trigger]
                by_expression(name) == by_pattern(name) by {
                if is_accepted(compiled@, name) {
                    let j = choose|j: int|
                        0 <= j < compiled.len() && (#[trigger] compiled@[j] matches Ok(re)
                            && regex_accepts(re, name));
                    assert(target_accepts(ids[j], name, true));
                }
                if is_selected(ids, name, true) {
                    let j = choose|j: int|
                        0 <= j < ids.len() && target_accepts(#[trigger] ids[j], name, true);
                    assert(compiled@[j] is Ok);
                }
            }
            lemma_filter_by_equal_conditions(names, by_expression, by_pattern);
        }
    }
    selection
}

/// Whether one of the locations is that of the base address itself.
pub open spec fn names_base(targets: Seq<LocationView>) -> bool {
    exists|j: int| 0 <= j < targets.len() && (#[trigger] targets[j]).remote_url == base_url()
}

/// The entries that a listing shows: all of them where a target is the base
/// address itself, and otherwise those that the targets select.
pub fn listed_entries(entries: &Vec<String>, targets: &Vec<Location>, use_regex: bool) -> (r:
    Result<Vec<String>, PatternError>)
    ensures
        names_base(location_views(targets@)) ==> (r matches Ok(found) && texts(found@) == texts(
            entries@,
        )),
        !use_regex || targets.len() == 0 ==> r is Ok,
        !names_base(location_views(targets@)) ==> (r matches Ok(found) ==> texts(found@)
            == matching(texts(entries@), location_ids(targets@), use_regex)),
        r matches Err(e) ==> e.index < targets.len() && e.pattern@ == location_ids(
            targets@,
        )[e.index as int],
{
    let mut j: usize = 0;
    while j < targets.len()
        invariant
            0 <= j <= targets.len(),
            forall|k: int|
                0 <= k < j ==> (#[trigger] location_views(targets@)[k]).remote_url != base_url(),
        decreases targets.len() - j,
    {
        if targets[j].is_base() {
            assert(location_views(targets@)[j as int].remote_url == base_url());
            let all = entries.clone();
            assert(texts(all@) =~= texts(entries@)) by {
                assert(all@ =~= entries@);
            }
            return Ok(all);
        }
        j = j + 1;
    }
    matching_existing(entries, targets, use_regex)
}

} // verus!
