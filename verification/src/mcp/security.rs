//! MCP security: the command allowlist and the working-directory jail.
//!
//! * `tui_launch` only runs commands matching `security.allow_commands`
//!   (regular expressions from `tuilab.yaml`); anything else is rejected
//!   with [`FORBIDDEN_COMMAND`].
//! * `cwd` must resolve under the project root. Resolving (symlinks, `..`)
//!   is the file system's business; [`jail`] decides on the resolved
//!   components.

use vstd::prelude::*;
use crate::json::{JsonValue, JsonView, field};
use crate::mcp::constants::FORBIDDEN_COMMAND;
use crate::pattern::{Pattern, compile_regex, pattern_matches, regex_compile_error, regex_is_match};
use crate::protocol::actions::strings_view;
use crate::text::{debug_str, push_char, push_str, quote_debug};

verus! {

/// The character sequences of a list of string slices.
pub open spec fn strs_view(v: Seq<&str>) -> Seq<Seq<char>> {
    Seq::new(v.len(), |i: int| v[i]@)
}

/// The first source the regex crate refuses, with its message.
pub open spec fn first_error(sources: Seq<Seq<char>>) -> Option<(Seq<char>, Seq<char>)>
    decreases sources.len(),
{
    if sources.len() == 0 {
        None
    } else {
        match regex_compile_error(sources[0]) {
            Some(e) => Some((sources[0], e)),
            None => first_error(sources.drop_first()),
        }
    }
}

/// Why a configured pattern was refused.
pub open spec fn bad_pattern_message(source: Seq<char>, error: Seq<char>) -> Seq<char> {
    "bad allow_commands pattern "@ + debug_str(source) + ": "@ + error
}

/// The default allowlist: relative launches, `cargo run`, `python`.
pub open spec fn default_sources() -> Seq<Seq<char>> {
    seq!["^\\./.*"@, "^cargo run.*"@, "^python.*"@]
}

/// `args` joined by single spaces.
pub open spec fn join_spaces(args: Seq<Seq<char>>) -> Seq<char>
    decreases args.len(),
{
    if args.len() == 0 {
        Seq::empty()
    } else if args.len() == 1 {
        args[0]
    } else {
        join_spaces(args.drop_last()) + seq![' '] + args.last()
    }
}

/// The command line an allowlist judges: the command, then its arguments,
/// separated by single spaces.
pub open spec fn command_line(command: Seq<char>, args: Seq<Seq<char>>) -> Seq<char> {
    if args.len() == 0 {
        command
    } else {
        command + seq![' '] + join_spaces(args)
    }
}

/// Items rendered with `{:?}` and separated by `, `.
pub open spec fn join_debug(items: Seq<Seq<char>>) -> Seq<char>
    decreases items.len(),
{
    if items.len() == 0 {
        Seq::empty()
    } else if items.len() == 1 {
        debug_str(items[0])
    } else {
        join_debug(items.drop_last()) + seq![',', ' '] + debug_str(items.last())
    }
}

/// How `{:?}` renders a list of strings.
pub open spec fn debug_list(items: Seq<Seq<char>>) -> Seq<char> {
    seq!['['] + join_debug(items) + seq![']']
}

/// Whether some pattern matches the line.
pub open spec fn any_match(sources: Seq<Seq<char>>, line: Seq<char>) -> bool {
    exists|i: int| 0 <= i < sources.len() && #[trigger] regex_is_match(sources[i], line)
}

/// The answer to a launch that no pattern allows.
pub open spec fn forbidden_message(line: Seq<char>, sources: Seq<Seq<char>>) -> Seq<char> {
    FORBIDDEN_COMMAND@ + ": "@ + debug_str(line) + " matches none of "@ + debug_list(sources)
}

/// Compiled command allowlist, with the sources it was compiled from.
pub struct Allowlist {
    patterns: Vec<Pattern>,
    sources: Vec<String>,
}

impl View for Allowlist {
    type V = Seq<Seq<char>>;

    /// The pattern sources, in order.
    closed spec fn view(&self) -> Seq<Seq<char>> {
        strings_view(self.sources@)
    }
}

impl Allowlist {
    /// Each compiled pattern is the one compiled from its source.
    #[verifier::type_invariant]
    closed spec fn compiled_from_sources(&self) -> bool {
        &&& self.patterns@.len() == self.sources@.len()
        &&& forall|i: int|
            0 <= i < self.patterns@.len() ==> #[trigger] self.patterns@[i]@ == self.sources@[i]@
    }

    /// Compile user patterns; an invalid regex is an error, never silent.
    pub fn from_sources(sources: &[&str]) -> (r: Result<Allowlist, String>)
        ensures
            match r {
                Ok(a) => first_error(strs_view(sources@)) is None && a@ == strs_view(sources@),
                Err(m) => first_error(strs_view(sources@)) matches Some((s, e)) && m@
                    == bad_pattern_message(s, e),
            },
    {
        let ghost v = strs_view(sources@);
        let mut patterns: Vec<Pattern> = Vec::new();
        let mut kept: Vec<String> = Vec::new();
        let mut i: usize = 0;
        assert(v.skip(0) =~= v);
        while i < sources.len()
            invariant
                v == strs_view(sources@),
                i <= sources@.len(),
                first_error(v) == first_error(v.skip(i as int)),
                patterns@.len() == i,
                kept@.len() == i,
                forall|j: int| 0 <= j < i ==> #[trigger] patterns@[j]@ == v[j],
                forall|j: int| 0 <= j < i ==> #[trigger] kept@[j]@ == v[j],
            decreases sources@.len() - i,
        {
            let source: &str = sources[i];
            assert(v.skip(i as int)[0] == v[i as int]);
            assert(v.skip(i as int).drop_first() =~= v.skip(i + 1));
            match compile_regex(source) {
                Ok(p) => {
                    patterns.push(p);
                    kept.push(source.to_owned());
                },
                Err(e) => {
                    let mut m = String::new();
                    push_str(&mut m, "bad allow_commands pattern ");
                    let q = quote_debug(source);
                    push_str(&mut m, q.as_str());
                    push_str(&mut m, ": ");
                    push_str(&mut m, e.as_str());
                    return Err(m);
                },
            }
            i = i + 1;
        }
        let a = Allowlist { patterns, sources: kept };
        assert(a@ =~= v);
        Ok(a)
    }

    /// The default allowlist: relative launches, `cargo run`, `python`.
    /// Callers that cannot know the defaults compile use [`try_defaults`].
    pub fn defaults() -> (r: Allowlist)
        requires
            first_error(default_sources()) is None,
        ensures
            r@ == default_sources(),
    {
        let sources = default_source_list();
        match Allowlist::from_sources(sources.as_slice()) {
            Ok(a) => a,
            Err(_) => {
                assert(false);
                Allowlist { patterns: Vec::new(), sources: Vec::new() }
            },
        }
    }

    /// Check `command` with `args` against the list.
    pub fn check(&self, command: &str, args: &[String]) -> (r: Result<(), String>)
        ensures
            match r {
                Ok(()) => any_match(self@, command_line(command@, strings_view(args@))),
                Err(m) => !any_match(self@, command_line(command@, strings_view(args@))) && m@
                    == forbidden_message(command_line(command@, strings_view(args@)), self@),
            },
    {
        proof {
            use_type_invariant(self);
        }
        let line = command_text(command, args);
        let ghost lv = command_line(command@, strings_view(args@));
        let mut i: usize = 0;
        while i < self.patterns.len()
            invariant
                i <= self.patterns@.len(),
                self.patterns@.len() == self.sources@.len(),
                forall|j: int|
                    0 <= j < self.patterns@.len() ==> #[trigger] self.patterns@[j]@
                        == self.sources@[j]@,
                line@ == lv,
                lv == command_line(command@, strings_view(args@)),
                forall|j: int| 0 <= j < i ==> !regex_is_match(#[trigger] self@[j], lv),
            decreases self.patterns@.len() - i,
        {
            if pattern_matches(&self.patterns[i], line.as_str()) {
                assert(self@.len() == self.sources@.len());
                assert(self@[i as int] == self.sources@[i as int]@);
                assert(regex_is_match(self@[i as int], lv));
                assert(any_match(self@, lv));
                return Ok(());
            }
            i = i + 1;
        }
        let mut m = String::new();
        push_str(&mut m, FORBIDDEN_COMMAND);
        push_str(&mut m, ": ");
        let q = quote_debug(line.as_str());
        push_str(&mut m, q.as_str());
        push_str(&mut m, " matches none of ");
        let list = debug_strings(self.sources.as_slice());
        push_str(&mut m, list.as_str());
        Err(m)
    }
}

/// The default allowlist, when every default pattern compiles.
pub fn try_defaults() -> (r: Option<Allowlist>)
    ensures
        match r {
            Some(a) => first_error(default_sources()) is None && a@ == default_sources(),
            None => first_error(default_sources()) is Some,
        },
{
    let sources = default_source_list();
    match Allowlist::from_sources(sources.as_slice()) {
        Ok(_) => Some(Allowlist::defaults()),
        Err(_) => None,
    }
}

fn default_source_list() -> (r: Vec<&'static str>)
    ensures
        strs_view(r@) == default_sources(),
{
    let mut r: Vec<&'static str> = Vec::new();
    r.push("^\\./.*");
    r.push("^cargo run.*");
    r.push("^python.*");
    assert(strs_view(r@) =~= default_sources());
    r
}

/// The command line `command args...`, as one string.
fn command_text(command: &str, args: &[String]) -> (r: String)
    ensures
        r@ == command_line(command@, strings_view(args@)),
{
    let mut r = String::new();
    push_str(&mut r, command);
    if args.len() == 0 {
        return r;
    }
    push_char(&mut r, ' ');
    let ghost av = strings_view(args@);
    let mut i: usize = 0;
    while i < args.len()
        invariant
            av == strings_view(args@),
            0 < args@.len(),
            i <= args@.len(),
            i == 0 ==> r@ == command@ + seq![' '],
            i > 0 ==> r@ == command@ + seq![' '] + join_spaces(av.take(i as int)),
        decreases args@.len() - i,
    {
        if i > 0 {
            push_char(&mut r, ' ');
        }
        push_str(&mut r, args[i].as_str());
        proof {
            let t = av.take(i + 1);
            assert(t.drop_last() =~= av.take(i as int));
            assert(t.last() == args@[i as int]@);
            if i == 0 {
                assert(join_spaces(t) == t[0]);
            }
        }
        i = i + 1;
    }
    assert(av.take(args@.len() as int) =~= av);
    r
}

/// `{:?}` of a list of strings.
fn debug_strings(items: &[String]) -> (r: String)
    ensures
        r@ == debug_list(strings_view(items@)),
{
    let ghost v = strings_view(items@);
    let mut r = String::new();
    push_char(&mut r, '[');
    let mut i: usize = 0;
    while i < items.len()
        invariant
            v == strings_view(items@),
            i <= items@.len(),
            r@ == seq!['['] + join_debug(v.take(i as int)),
        decreases items@.len() - i,
    {
        if i > 0 {
            push_char(&mut r, ',');
            push_char(&mut r, ' ');
        }
        let q = quote_debug(items[i].as_str());
        push_str(&mut r, q.as_str());
        proof {
            let t = v.take(i + 1);
            assert(t.drop_last() =~= v.take(i as int));
            assert(t.last() == items@[i as int]@);
            if i == 0 {
                assert(v.take(0) =~= Seq::<Seq<char>>::empty());
            }
        }
        i = i + 1;
    }
    push_char(&mut r, ']');
    assert(v.take(items@.len() as int) =~= v);
    r
}

/// The string items of a list, others skipped.
pub open spec fn str_items(items: Seq<JsonView>) -> Seq<Seq<char>>
    decreases items.len(),
{
    if items.len() == 0 {
        Seq::empty()
    } else {
        let rest = str_items(items.drop_last());
        match items.last() {
            JsonView::Str(s) => rest.push(s),
            _ => rest,
        }
    }
}

/// `security.allow_commands` of a configuration tree: its string items, or
/// nothing when it is missing or not a list.
pub open spec fn allow_entries(config: JsonView) -> Seq<Seq<char>> {
    match field(config, "security"@) {
        Some(security) => match field(security, "allow_commands"@) {
            Some(JsonView::Array(items)) => str_items(items),
            _ => Seq::empty(),
        },
        None => Seq::empty(),
    }
}

/// The configured allowlist entries.
pub fn allow_entries_of(config: &JsonValue) -> (r: Vec<String>)
    ensures
        strings_view(r@) == allow_entries(config@),
{
    let mut r: Vec<String> = Vec::new();
    match config.get("security") {
        Some(security) => match security.get("allow_commands") {
            Some(JsonValue::Array(items)) => {
                let ghost views = crate::json::item_views(items@);
                let mut i: usize = 0;
                while i < items.len()
                    invariant
                        views == crate::json::item_views(items@),
                        i <= items@.len(),
                        strings_view(r@) == str_items(views.take(i as int)),
                    decreases items@.len() - i,
                {
                    let ghost t = views.take(i + 1);
                    assert(t.drop_last() =~= views.take(i as int));
                    assert(t.last() == items@[i as int]@);
                    match &items[i] {
                        JsonValue::Str(s) => {
                            let ghost before = r@;
                            r.push(s.clone());
                            assert(strings_view(r@) =~= strings_view(before).push(s@));
                        },
                        _ => {},
                    }
                    i = i + 1;
                }
                assert(views.take(items@.len() as int) =~= views);
            },
            _ => {},
        },
        None => {},
    }
    r
}

/// The allowlist of a project: the configured `security.allow_commands`,
/// or the defaults when the configuration is blank (`None`) or lists none.
pub fn allowlist_from_config(config: Option<&JsonValue>) -> (r: Result<Allowlist, String>)
    ensures
        ({
            let entries = match config {
                Some(c) => allow_entries(c@),
                None => Seq::empty(),
            };
            let chosen = if entries.len() == 0 {
                default_sources()
            } else {
                entries
            };
            match r {
                Ok(a) => first_error(chosen) is None && a@ == chosen,
                Err(m) => first_error(chosen) matches Some((s, e)) && m@ == bad_pattern_message(s, e),
            }
        }),
{
    let entries: Vec<String> = match config {
        Some(c) => allow_entries_of(c),
        None => Vec::new(),
    };
    if entries.len() == 0 {
        let sources = default_source_list();
        return Allowlist::from_sources(sources.as_slice());
    }
    let mut refs: Vec<&str> = Vec::new();
    let mut i: usize = 0;
    while i < entries.len()
        invariant
            i <= entries@.len(),
            refs@.len() == i,
            forall|j: int| 0 <= j < i ==> #[trigger] refs@[j]@ == entries@[j]@,
        decreases entries@.len() - i,
    {
        refs.push(entries[i].as_str());
        i = i + 1;
    }
    assert(strs_view(refs@) =~= strings_view(entries@));
    Allowlist::from_sources(refs.as_slice())
}

/// Whether `root`'s components begin `path`'s (`Path::starts_with`).
pub open spec fn within(root: Seq<Seq<char>>, path: Seq<Seq<char>>) -> bool {
    root.len() <= path.len() && forall|i: int| 0 <= i < root.len() ==> path[i] == root[i]
}

/// Confine a resolved working directory under the resolved project root,
/// both given as path components; `shown` is how the directory is displayed
/// in the refusal.
pub fn jail(root: &[String], resolved: &[String], shown: &str) -> (r: Result<(), String>)
    ensures
        match r {
            Ok(()) => within(strings_view(root@), strings_view(resolved@)),
            Err(m) => !within(strings_view(root@), strings_view(resolved@)) && m@
                == "cwd escapes project root: "@ + shown@,
        },
{
    let mut ok = root.len() <= resolved.len();
    let mut i: usize = 0;
    while ok && i < root.len()
        invariant
            ok ==> root@.len() <= resolved@.len(),
            !ok ==> !within(strings_view(root@), strings_view(resolved@)),
            i <= root@.len(),
            forall|j: int| 0 <= j < i ==> resolved@[j]@ == root@[j]@,
        decreases root@.len() - i + (if ok {
            1int
        } else {
            0int
        }),
    {
        if !crate::text::str_eq(resolved[i].as_str(), root[i].as_str()) {
            assert(strings_view(resolved@)[i as int] != strings_view(root@)[i as int]);
            ok = false;
        } else {
            i = i + 1;
        }
    }
    if ok {
        assert(within(strings_view(root@), strings_view(resolved@)));
        Ok(())
    } else {
        let mut m = String::new();
        push_str(&mut m, "cwd escapes project root: ");
        push_str(&mut m, shown);
        Err(m)
    }
}

} // verus!
