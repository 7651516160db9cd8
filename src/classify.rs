use crate::settings::{rules_view, PatternView, SortPattern};
use vstd::prelude::*;

verus! {

/// Dotfiles are never sorted.
pub open spec fn is_hidden_name(name: Seq<char>) -> bool {
    name.len() > 0 && name[0] == '.'
}

/// The index of the last `.` in `name`, or -1 when there is none.
pub open spec fn last_dot(name: Seq<char>) -> int
    decreases name.len(),
{
    if name.len() == 0 {
        -1
    } else if name.last() == '.' {
        name.len() - 1
    } else {
        last_dot(name.drop_last())
    }
}

/// The extension of a file name: what follows its last `.`, where that dot
/// is not the first character. A name ending in a dot has the empty
/// extension; a dotfile with no other dot has none.
pub open spec fn extension_of(name: Seq<char>) -> Option<Seq<char>> {
    if last_dot(name) > 0 {
        Some(name.subrange(last_dot(name) + 1, name.len() as int))
    } else {
        None
    }
}

/// Lowercase text, as std's `str::to_lowercase` gives it: Unicode's
/// lowercase mappings, a function of the text alone.
pub uninterp spec fn lower_of(s: Seq<char>) -> Seq<char>;

/// `i` is the first rule, in declaration order, that lists `ext`.
pub open spec fn is_first_rule_for(rules: Seq<PatternView>, ext: Seq<char>, i: int) -> bool {
    &&& 0 <= i < rules.len()
    &&& rules[i].extensions.contains(ext)
    &&& forall|j: int| 0 <= j < i ==> !rules[j].extensions.contains(ext)
}

/// The first rule that lists `ext`, if any does.
pub open spec fn rule_for_extension(rules: Seq<PatternView>, ext: Seq<char>) -> Option<int> {
    if exists|i: int| is_first_rule_for(rules, ext, i) {
        Some(choose|i: int| is_first_rule_for(rules, ext, i))
    } else {
        None
    }
}

/// How a file's name decides its rule.
#[derive(PartialEq, Eq, Structural, Clone, Copy, Debug)]
pub enum NameRoute {
    /// A dotfile: left alone.
    Hidden,
    /// No extension: its content decides.
    ProbeContent,
    /// Its lowercased extension is listed first by this rule.
    Rule(usize),
    /// Its lowercased extension is listed by no rule: left alone.
    NoRule,
}

/// The route that a file name takes through the rules.
pub open spec fn route_of_name(rules: Seq<PatternView>, name: Seq<char>) -> NameRoute {
    if is_hidden_name(name) {
        NameRoute::Hidden
    } else {
        match extension_of(name) {
            None => NameRoute::ProbeContent,
            Some(ext) => match rule_for_extension(rules, lower_of(ext)) {
                Some(i) => NameRoute::Rule(i as usize),
                None => NameRoute::NoRule,
            },
        }
    }
}

/// The first rule is the only index that is first.
pub proof fn lemma_first_rule_unique(rules: Seq<PatternView>, ext: Seq<char>, i: int)
    requires
        is_first_rule_for(rules, ext, i),
    ensures
        rule_for_extension(rules, ext) == Some(i),
{
    let k = choose|k: int| is_first_rule_for(rules, ext, k);
    assert(is_first_rule_for(rules, ext, k));
    if k < i {
        assert(!rules[k].extensions.contains(ext));
    } else if i < k {
        assert(!rules[i].extensions.contains(ext));
    }
}

proof fn lemma_last_dot(name: Seq<char>, k: int)
    requires
        k == -1 || (0 <= k < name.len() && name[k] == '.'),
        forall|j: int| k < j < name.len() ==> name[j] != '.',
    ensures
        last_dot(name) == k,
    decreases name.len(),
{
    if name.len() > 0 && name.last() != '.' {
        lemma_last_dot(name.drop_last(), k);
    }
}

/// Whether a file name begins with a dot.
pub fn is_hidden(file_name: &str) -> (r: bool)
    ensures
        r == is_hidden_name(file_name@),
{
    file_name.unicode_len() > 0 && file_name.get_char(0) == '.'
}

/// The extension of a file name, as `extension_of` gives it.
pub fn file_extension(file_name: &str) -> (r: Option<String>)
    ensures
        match r {
            Some(ext) => extension_of(file_name@) == Some(ext@),
            None => extension_of(file_name@) is None,
        },
{
    let n = file_name.unicode_len();
    let mut i = n;
    while i > 0
        invariant
            i <= n,
            n == file_name@.len(),
            forall|j: int| i <= j < n ==> file_name@[j] != '.',
        decreases i,
    {
        if file_name.get_char(i - 1) == '.' {
            proof {
                lemma_last_dot(file_name@, i - 1);
            }
            if i - 1 == 0 {
                return None;
            }
            return Some(String::from_str(file_name.substring_char(i, n)));
        }
        i = i - 1;
    }
    proof {
        lemma_last_dot(file_name@, -1);
    }
    None
}

/// Relies on str::to_lowercase: Unicode's lowercase mappings (a final
/// sigma by its context), a function of the text alone.
#[verifier::external_body]
fn lowercase(s: &str) -> (r: String)
    ensures
        r@ == lower_of(s@),
{
    s.to_lowercase()
}

fn lists(items: &Vec<String>, item: &String) -> (r: bool)
    ensures
        r == items.deep_view().contains(item@),
{
    let mut i: usize = 0;
    while i < items.len()
        invariant
            i <= items@.len(),
            forall|j: int| 0 <= j < i ==> items.deep_view()[j] != item@,
        decreases items@.len() - i,
    {
        if items[i] == *item {
            assert(items.deep_view()[i as int] == item@);
            return true;
        }
        i = i + 1;
    }
    false
}

/// The first rule, in declaration order, whose extensions list `ext`
/// exactly.
pub fn find_rule_for_extension(patterns: &Vec<SortPattern>, ext: &String) -> (r: Option<usize>)
    ensures
        match r {
            Some(i) => rule_for_extension(rules_view(patterns@), ext@) == Some(i as int),
            None => rule_for_extension(rules_view(patterns@), ext@) is None,
        },
{
    let ghost rules = rules_view(patterns@);
    let mut i: usize = 0;
    while i < patterns.len()
        invariant
            i <= patterns@.len(),
            rules == rules_view(patterns@),
            forall|j: int| 0 <= j < i ==> !rules[j].extensions.contains(ext@),
        decreases patterns@.len() - i,
    {
        if lists(&patterns[i].extensions, ext) {
            proof {
                lemma_first_rule_unique(rules, ext@, i as int);
            }
            return Some(i);
        }
        i = i + 1;
    }
    assert(forall|k: int| !is_first_rule_for(rules, ext@, k));
    None
}

/// The route that a file name takes: a dotfile is hidden, a name without an
/// extension goes by content, and otherwise the first rule listing the
/// lowercased extension decides.
pub fn route_name(patterns: &Vec<SortPattern>, file_name: &str) -> (r: NameRoute)
    ensures
        r == route_of_name(rules_view(patterns@), file_name@),
{
    if is_hidden(file_name) {
        return NameRoute::Hidden;
    }
    match file_extension(file_name) {
        None => NameRoute::ProbeContent,
        Some(ext) => {
            let lower = lowercase(ext.as_str());
            match find_rule_for_extension(patterns, &lower) {
                Some(i) => NameRoute::Rule(i),
                None => NameRoute::NoRule,
            }
        },
    }
}

/// Relies on tree_magic::match_filepath: whether the file at `path` is of
/// content type `mime`. The answer depends on the file on disk and on the
/// MIME database installed on the machine, so nothing is promised of it.
#[verifier::external_body]
fn content_matches(mime: &str, path: &str) -> (r: bool) {
    tree_magic::match_filepath(mime, std::path::Path::new(path))
}

/// `i` is the first index, in order, at which `matched` holds.
pub open spec fn is_first_matched(matched: Seq<bool>, i: int) -> bool {
    &&& 0 <= i < matched.len()
    &&& matched[i]
    &&& forall|j: int| 0 <= j < i ==> !matched[j]
}

/// The least index at which `matched` holds, if any does.
pub open spec fn first_matched(matched: Seq<bool>) -> Option<int> {
    if exists|i: int| is_first_matched(matched, i) {
        Some(choose|i: int| is_first_matched(matched, i))
    } else {
        None
    }
}

proof fn lemma_first_matched_unique(matched: Seq<bool>, i: int)
    requires
        is_first_matched(matched, i),
    ensures
        first_matched(matched) == Some(i),
{
    let k = choose|k: int| is_first_matched(matched, k);
    assert(is_first_matched(matched, k));
    if k < i {
        assert(!matched[k]);
    } else if i < k {
        assert(!matched[i]);
    }
}

/// Picks the rule that content decides: the first, in declaration order,
/// whose entry in `matched` holds (entry `i` says whether some content type
/// of rule `i` matched the file).
pub fn pick_content_rule(matched: &Vec<bool>) -> (r: Option<usize>)
    ensures
        match r {
            Some(i) => first_matched(matched@) == Some(i as int),
            None => first_matched(matched@) is None,
        },
{
    let mut i: usize = 0;
    while i < matched.len()
        invariant
            i <= matched@.len(),
            forall|j: int| 0 <= j < i ==> !matched@[j],
        decreases matched@.len() - i,
    {
        if matched[i] {
            proof {
                lemma_first_matched_unique(matched@, i as int);
            }
            return Some(i);
        }
        i = i + 1;
    }
    assert(forall|k: int| !is_first_matched(matched@, k));
    None
}

fn any_content_matches(mime_types: &Vec<String>, path: &str) -> (r: bool)
    ensures
        r ==> mime_types@.len() > 0,
{
    let mut j: usize = 0;
    while j < mime_types.len()
        invariant
            j <= mime_types@.len(),
        decreases mime_types@.len() - j,
    {
        if content_matches(mime_types[j].as_str(), path) {
            return true;
        }
        j = j + 1;
    }
    false
}

/// The first rule, in declaration order, one of whose content types the
/// file at `path` is found to have. The classifier is asked about each
/// listed type in order until one matches; whatever it answers, the result
/// is what `pick_content_rule` chooses from some record of its answers in
/// which only rules that list a content type can have matched.
pub fn find_rule_for_content(patterns: &Vec<SortPattern>, path: &str) -> (r: Option<usize>)
    ensures
        r matches Some(i) ==> i < patterns@.len() && patterns@[i as int]@.mime_types.len() > 0,
        (forall|i: int| 0 <= i < patterns@.len() ==> #[trigger] patterns@[i]@.mime_types.len() == 0)
            ==> r is None,
        exists|m: Seq<bool>|
            {
                &&& m.len() == patterns@.len()
                &&& forall|i: int|
                    0 <= i < m.len() && #[trigger] m[i] ==> patterns@[i]@.mime_types.len() > 0
                &&& match r {
                    Some(i) => first_matched(m) == Some(i as int),
                    None => first_matched(m) is None,
                }
            },
{
    let mut matched: Vec<bool> = Vec::new();
    let mut found = false;
    let mut i: usize = 0;
    while i < patterns.len()
        invariant
            i <= patterns@.len(),
            matched@.len() == i,
            forall|k: int| 0 <= k < i && #[trigger] matched@[k] ==> patterns@[k]@.mime_types.len() > 0,
        decreases patterns@.len() - i,
    {
        // once a rule has matched, later rules cannot win: no need to probe them
        let hit = !found && any_content_matches(&patterns[i].mime_types, path);
        assert(hit ==> patterns@[i as int]@.mime_types.len() == patterns@[i as int].mime_types@.len());
        matched.push(hit);
        found = found || hit;
        i = i + 1;
    }
    let r = pick_content_rule(&matched);
    proof {
        if r is Some {
            let k = choose|x: int| is_first_matched(matched@, x);
            assert(is_first_matched(matched@, k));
        }
    }
    r
}

} // verus!
