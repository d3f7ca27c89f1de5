//! The error given when `cli-templates.toml` is found nowhere.
use vstd::prelude::*;
use crate::candidates::strings_view;

verus! {

/// Why the templates file could not be located.
pub enum TemplatesError {
    /// No candidate path exists; `searched` lists every path checked, in order.
    NotFound { searched: Vec<String> },
}

/// The first line of the not-found message.
pub open spec fn not_found_header() -> Seq<char> {
    "cli-templates.toml not found. Set DISPATCH_AGENT_TEMPLATES to override. Searched:\n"@
}

/// The line that lists one searched path.
pub open spec fn listed_path(p: Seq<char>) -> Seq<char> {
    "  "@ + p + "\n"@
}

/// The lines listing `paths`, in order.
pub open spec fn listed_paths(paths: Seq<Seq<char>>) -> Seq<char>
    decreases paths.len(),
{
    if paths.len() == 0 {
        Seq::empty()
    } else {
        listed_paths(paths.drop_last()) + listed_path(paths.last())
    }
}

/// The message reporting that none of `paths` exists.
pub open spec fn not_found_message(paths: Seq<Seq<char>>) -> Seq<char> {
    not_found_header() + listed_paths(paths)
}

/// Whether `needle` occurs as a contiguous part of `hay`.
pub open spec fn contains_text(hay: Seq<char>, needle: Seq<char>) -> bool {
    exists|k: int|
        0 <= k && k + needle.len() <= hay.len() && #[trigger] hay.subrange(k, k + needle.len())
            == needle
}

/// The message reporting that none of `checked` exists: a header naming the
/// override variable, then one indented line per path, in order.
pub fn format_not_found_error(checked: &[String]) -> (s: String)
    ensures
        s@ == not_found_message(strings_view(checked@)),
{
    let mut s = "cli-templates.toml not found. Set DISPATCH_AGENT_TEMPLATES to override. Searched:\n".to_owned();
    let ghost paths = strings_view(checked@);
    for i in 0..checked.len()
        invariant
            paths == strings_view(checked@),
            s@ == not_found_header() + listed_paths(paths.take(i as int)),
    {
        proof {
            assert(paths.take(i + 1).drop_last() =~= paths.take(i as int));
        }
        s.append("  ");
        s.append(checked[i].as_str());
        s.append("\n");
        assert(s@ =~= not_found_header() + listed_paths(paths.take(i + 1)));
    }
    proof {
        assert(paths.take(checked@.len() as int) =~= paths);
    }
    s
}

impl TemplatesError {
    /// The paths that were checked, in order.
    pub open spec fn searched_view(self) -> Seq<Seq<char>> {
        match self {
            TemplatesError::NotFound { searched } => strings_view(searched@),
        }
    }

    /// The human-readable text of the error.
    pub fn message(&self) -> (s: String)
        ensures
            s@ == not_found_message(self.searched_view()),
    {
        match self {
            TemplatesError::NotFound { searched } => format_not_found_error(searched.as_slice()),
        }
    }
}

proof fn lemma_listed_paths_contains(paths: Seq<Seq<char>>, i: int)
    requires
        0 <= i < paths.len(),
    ensures
        contains_text(listed_paths(paths), paths[i]),
    decreases paths.len(),
{
    let prev = listed_paths(paths.drop_last());
    let line = listed_path(paths.last());
    assert(listed_paths(paths) == prev + line);
    if i == paths.len() - 1 {
        let k: int = prev.len() as int + 2;
        let p = paths[i];
        reveal_strlit("  ");
        reveal_strlit("\n");
        assert((prev + line).subrange(k, k + p.len()) =~= p);
        assert(contains_text(listed_paths(paths), paths[i]));
    } else {
        lemma_listed_paths_contains(paths.drop_last(), i);
        let p = paths[i];
        assert(paths.drop_last()[i] == p);
        let k = choose|k: int|
            0 <= k && k + p.len() <= prev.len() && #[trigger] prev.subrange(k, k + p.len()) == p;
        assert((prev + line).subrange(k, k + p.len()) =~= prev.subrange(k, k + p.len()));
        assert(contains_text(listed_paths(paths), paths[i]));
    }
}

/// Every path that was searched is named in the not-found message, and the
/// message names the variable that overrides the search.
pub proof fn lemma_not_found_message_lists_paths(paths: Seq<Seq<char>>)
    ensures
        forall|i: int| 0 <= i < paths.len() ==> contains_text(not_found_message(paths), #[trigger] paths[i]),
        contains_text(not_found_message(paths), "DISPATCH_AGENT_TEMPLATES"@),
{
    let h = not_found_header();
    let rest = listed_paths(paths);
    assert forall|i: int| 0 <= i < paths.len() implies contains_text(
        not_found_message(paths),
        #[trigger] paths[i],
    ) by {
        lemma_listed_paths_contains(paths, i);
        let p = paths[i];
        let k = choose|k: int|
            0 <= k && k + p.len() <= rest.len() && #[trigger] rest.subrange(k, k + p.len()) == p;
        assert((h + rest).subrange(h.len() + k, h.len() + k + p.len()) =~= rest.subrange(k, k + p.len()));
    }
    reveal_strlit("cli-templates.toml not found. Set DISPATCH_AGENT_TEMPLATES to override. Searched:\n");
    reveal_strlit("DISPATCH_AGENT_TEMPLATES");
    let v = "DISPATCH_AGENT_TEMPLATES"@;
    assert((h + rest).subrange(34, 34 + v.len() as int) =~= v);
}

} // verus!
