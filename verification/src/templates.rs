//! The templates read from `cli-templates.toml`: the text handed to the TOML
//! parser and the defaults applied to what it produced.
use vstd::prelude::*;
use indexmap::IndexMap;

verus! {

/// How one agent CLI is invoked, as written in a `[name]` table of
/// `cli-templates.toml`.
#[derive(Clone, Debug, PartialEq, Eq)]
pub struct Template {
    /// The flag that passes the prompt.
    pub prompt_flag: Option<String>,
    /// The flag that makes the CLI print its version; an empty string means
    /// that the version is not probed.
    pub version_flag: Option<String>,
    /// Arguments always passed to the CLI.
    pub extra_args: Option<Vec<String>>,
}

/// The content of a [`Template`].
pub struct TemplateView {
    pub prompt_flag: Option<Seq<char>>,
    pub version_flag: Option<Seq<char>>,
    pub extra_args: Option<Seq<Seq<char>>>,
}

/// The texts of a list of strings.
pub open spec fn texts(v: Seq<String>) -> Seq<Seq<char>> {
    v.map_values(|s: String| s@)
}

impl View for Template {
    type V = TemplateView;

    open spec fn view(&self) -> TemplateView {
        TemplateView {
            prompt_flag: match self.prompt_flag {
                Some(s) => Some(s@),
                None => None,
            },
            version_flag: match self.version_flag {
                Some(s) => Some(s@),
                None => None,
            },
            extra_args: match self.extra_args {
                Some(v) => Some(texts(v@)),
                None => None,
            },
        }
    }
}

/// `indexmap::IndexMap`, the ordered map the parsed templates are kept in;
/// its content is seen through [`template_entries`].
#[verifier::external_type_specification]
#[verifier::external_body]
#[verifier::reject_recursive_types(K)]
#[verifier::reject_recursive_types(V)]
#[verifier::reject_recursive_types(S)]
pub struct ExIndexMap<K, V, S>(IndexMap<K, V, S>);

/// The entries of a map of templates, in the map's order: each key's text
/// with the content of its template.
pub uninterp spec fn template_entries(m: IndexMap<String, Template>) -> Seq<(Seq<char>, TemplateView)>;

/// Whether some entry of `entries` has the key `key`.
pub open spec fn has_key(entries: Seq<(Seq<char>, TemplateView)>, key: Seq<char>) -> bool {
    exists|j: int| 0 <= j < entries.len() && #[trigger] entries[j].0 == key
}

/// `IndexMap::len`: the number of entries.
#[verifier::external_body]
fn template_map_len(m: &IndexMap<String, Template>) -> (n: usize)
    ensures
        n == template_entries(*m).len(),
{
    m.len()
}

/// `IndexMap::get_index`: the entry at position `i`, present exactly when
/// `i` is below the length. Keys of an `IndexMap` are unique, so no other
/// entry has the returned key.
#[verifier::external_body]
fn template_map_get_index(m: &IndexMap<String, Template>, i: usize) -> (r: Option<
    (&String, &Template),
>)
    ensures
        r is Some <==> i < template_entries(*m).len(),
        r matches Some((k, t)) ==> {
            &&& template_entries(*m)[i as int] == (k@, t@)
            &&& forall|j: int|
                0 <= j < template_entries(*m).len() && j != i ==> #[trigger] template_entries(
                    *m,
                )[j].0 != k@
        },
{
    m.get_index(i)
}

/// `IndexMap::insert`: when the key is present its value is replaced in
/// place and the old value is returned; otherwise the entry is appended and
/// `None` is returned.
#[verifier::external_body]
fn template_map_insert(m: &mut IndexMap<String, Template>, key: String, value: Template) -> (r:
    Option<Template>)
    ensures
        r is Some <==> has_key(template_entries(*old(m)), key@),
        r matches Some(v) ==> exists|j: int|
            0 <= j < template_entries(*old(m)).len() && #[trigger] template_entries(*old(m))[j] == (
                key@,
                v@,
            ),
        has_key(template_entries(*old(m)), key@) ==> {
            &&& template_entries(*final(m)).len() == template_entries(*old(m)).len()
            &&& forall|j: int|
                0 <= j < template_entries(*old(m)).len() ==> #[trigger] template_entries(
                    *final(m),
                )[j] == if template_entries(*old(m))[j].0 == key@ {
                    (key@, value@)
                } else {
                    template_entries(*old(m))[j]
                }
        },
        !has_key(template_entries(*old(m)), key@) ==> template_entries(*final(m)) == template_entries(
            *old(m),
        ).push((key@, value@)),
{
    m.insert(key, value)
}

/// The version flag used when a template names none.
pub open spec fn default_version_flag() -> Seq<char> {
    "--version"@
}

/// A template with the version flag filled in when it was absent; a present
/// flag, the empty one included, is kept.
pub open spec fn with_default_version(t: TemplateView) -> TemplateView {
    match t.version_flag {
        Some(_) => t,
        None => TemplateView { version_flag: Some(default_version_flag()), ..t },
    }
}

/// Entries with the version-flag default applied to each template.
pub open spec fn defaulted_entries(e: Seq<(Seq<char>, TemplateView)>) -> Seq<(Seq<char>, TemplateView)> {
    e.map_values(|kv: (Seq<char>, TemplateView)| (kv.0, with_default_version(kv.1)))
}

fn clone_strings(v: &Vec<String>) -> (r: Vec<String>)
    ensures
        texts(r@) == texts(v@),
{
    let mut r: Vec<String> = Vec::new();
    for i in 0..v.len()
        invariant
            r@.len() == i,
            forall|j: int| 0 <= j < i ==> (#[trigger] r@[j])@ == v@[j]@,
    {
        r.push(v[i].clone());
    }
    assert(texts(r@) =~= texts(v@));
    r
}

fn clone_opt_strings(o: &Option<Vec<String>>) -> (r: Option<Vec<String>>)
    ensures
        match (r, *o) {
            (Some(a), Some(b)) => texts(a@) == texts(b@),
            (None, None) => true,
            _ => false,
        },
{
    match o {
        Some(v) => Some(clone_strings(v)),
        None => None,
    }
}

fn clone_opt_string(o: &Option<String>) -> (r: Option<String>)
    ensures
        r == *o,
{
    match o {
        Some(s) => Some(s.clone()),
        None => None,
    }
}

/// Gives every template without a version flag the flag `--version`. Keys,
/// their order, prompt flags, extra arguments and version flags that are present (the empty
/// one included) are left as they are.
pub fn apply_version_flag_default(map: &mut IndexMap<String, Template>)
    ensures
        template_entries(*final(map)) == defaulted_entries(template_entries(*old(map))),
{
    let ghost start = template_entries(*map);
    let n = template_map_len(map);
    let mut i: usize = 0;
    while i < n
        invariant
            n == start.len(),
            i <= n,
            template_entries(*map).len() == n,
            forall|j: int| 0 <= j < i ==> #[trigger] template_entries(*map)[j] == (
                start[j].0,
                with_default_version(start[j].1),
            ),
            forall|j: int| i <= j < n ==> #[trigger] template_entries(*map)[j] == start[j],
        decreases n - i,
    {
        let ghost before = template_entries(*map);
        let entry = template_map_get_index(map, i);
        let update = match entry {
            Some((k, t)) => {
                if t.version_flag.is_none() {
                    Some(
                        (
                            k.clone(),
                            Template {
                                prompt_flag: clone_opt_string(&t.prompt_flag),
                                version_flag: Some("--version".to_owned()),
                                extra_args: clone_opt_strings(&t.extra_args),
                            },
                        ),
                    )
                } else {
                    None
                }
            },
            None => None,
        };
        if let Some((key, value)) = update {
            proof {
                assert(has_key(before, key@) && before[i as int].0 == key@);
            }
            template_map_insert(map, key, value);
            assert forall|j: int| 0 <= j < n implies #[trigger] template_entries(*map)[j] == if j
                == i {
                (start[j].0, with_default_version(start[j].1))
            } else {
                before[j]
            } by {
                if j != i {
                    assert(before[j].0 != before[i as int].0);
                }
            }
        }
        i = i + 1;
    }
    assert(template_entries(*map) =~= defaulted_entries(start));
}

/// The text of a `cli-templates.toml` file with one leading byte-order mark
/// removed.
pub open spec fn strip_bom_spec(raw: Seq<char>) -> Seq<char> {
    if raw.len() > 0 && raw[0] == '\u{FEFF}' {
        raw.drop_first()
    } else {
        raw
    }
}

/// `raw` without its leading byte-order mark (U+FEFF), if it has one; only
/// one mark is removed.
pub fn strip_bom(raw: &str) -> (content: &str)
    ensures
        content@ == strip_bom_spec(raw@),
{
    let n = raw.unicode_len();
    if n > 0 && raw.get_char(0) == '\u{FEFF}' {
        let rest = raw.substring_char(1, n);
        assert(rest@ =~= raw@.drop_first());
        rest
    } else {
        raw
    }
}

/// Applying the version-flag default keeps every key in its place and
/// every prompt flag and extra-argument list, keeps every version flag that was written (the empty
/// one included), and leaves no template without a version flag.
pub proof fn lemma_version_default_effect(e: Seq<(Seq<char>, TemplateView)>)
    ensures
        defaulted_entries(e).len() == e.len(),
        forall|i: int|
            0 <= i < e.len() ==> {
                &&& (#[trigger] defaulted_entries(e)[i]).0 == e[i].0
                &&& defaulted_entries(e)[i].1.prompt_flag == e[i].1.prompt_flag
                &&& defaulted_entries(e)[i].1.extra_args == e[i].1.extra_args
                &&& defaulted_entries(e)[i].1.version_flag is Some
                &&& e[i].1.version_flag is Some ==> defaulted_entries(e)[i].1 == e[i].1
                &&& e[i].1.version_flag is None ==> defaulted_entries(e)[i].1.version_flag == Some(
                    default_version_flag(),
                )
            },
{
}

/// One leading byte-order mark is removed and nothing else: text that
/// starts with the mark loses exactly that character, other text is kept.
pub proof fn lemma_strip_bom_effect(body: Seq<char>)
    ensures
        strip_bom_spec(seq!['\u{FEFF}'] + body) == body,
        (body.len() == 0 || body[0] != '\u{FEFF}') ==> strip_bom_spec(body) == body,
{
    assert((seq!['\u{FEFF}'] + body).drop_first() =~= body);
}

} // verus!
