use crate::config::{
    free_of, law_read_after_write, lines_of, read_value, read_value_spec,
    text_lines, trim, trim_front, trim_spec, write_value, write_value_spec,
};
use crate::backend::ScreenSize;
use crate::host::{command_argv, command_argv_spec};
use crate::text::{char_is_whitespace, has_prefix, is_whitespace_char, push_char, push_str, str_eq};
use vstd::prelude::*;

verus! {

/// Where a new terminal tab runs its shell.
#[derive(Clone, Debug, PartialEq, Eq)]
pub enum LaunchTarget {
    Host,
    Distrobox { name: String, has_unshared_groups: bool },
    Toolbox { name: String },
    Podman { name: String },
}

/// A launch target taken by value.
pub enum TargetView {
    Host,
    Distrobox(Seq<char>, bool),
    Toolbox(Seq<char>),
    Podman(Seq<char>),
}

impl View for LaunchTarget {
    type V = TargetView;

    open spec fn view(&self) -> TargetView {
        match self {
            LaunchTarget::Host => TargetView::Host,
            LaunchTarget::Distrobox { name, has_unshared_groups } => TargetView::Distrobox(
                name@,
                *has_unshared_groups,
            ),
            LaunchTarget::Toolbox { name } => TargetView::Toolbox(name@),
            LaunchTarget::Podman { name } => TargetView::Podman(name@),
        }
    }
}

/// The name a launch target shows.
pub open spec fn title_spec(t: TargetView) -> Seq<char> {
    match t {
        TargetView::Host => "My Computer"@,
        TargetView::Distrobox(name, _) => name,
        TargetView::Toolbox(name) => name,
        TargetView::Podman(name) => name,
    }
}

/// The identifier a launch target is remembered by.
pub open spec fn id_spec(t: TargetView) -> Seq<char> {
    match t {
        TargetView::Host => "host"@,
        TargetView::Distrobox(name, _) => "distrobox:"@ + name,
        TargetView::Toolbox(name) => "toolbox:"@ + name,
        TargetView::Podman(name) => "podman:"@ + name,
    }
}

impl LaunchTarget {
    pub fn title(&self) -> (r: String)
        ensures
            r@ == title_spec(self@),
    {
        match self {
            LaunchTarget::Host => String::from_str("My Computer"),
            LaunchTarget::Distrobox { name, .. } => name.clone(),
            LaunchTarget::Toolbox { name } => name.clone(),
            LaunchTarget::Podman { name } => name.clone(),
        }
    }

    pub fn id(&self) -> (r: String)
        ensures
            r@ == id_spec(self@),
    {
        match self {
            LaunchTarget::Host => String::from_str("host"),
            LaunchTarget::Distrobox { name, .. } => {
                let mut id = String::from_str("distrobox:");
                push_str(&mut id, name.as_str());
                id
            },
            LaunchTarget::Toolbox { name } => {
                let mut id = String::from_str("toolbox:");
                push_str(&mut id, name.as_str());
                id
            },
            LaunchTarget::Podman { name } => {
                let mut id = String::from_str("podman:");
                push_str(&mut id, name.as_str());
                id
            },
        }
    }

    /// A copy of the target.
    pub fn duplicate(&self) -> (r: Self)
        ensures
            r@ == self@,
    {
        match self {
            LaunchTarget::Host => LaunchTarget::Host,
            LaunchTarget::Distrobox { name, has_unshared_groups } => LaunchTarget::Distrobox {
                name: name.clone(),
                has_unshared_groups: *has_unshared_groups,
            },
            LaunchTarget::Toolbox { name } => LaunchTarget::Toolbox { name: name.clone() },
            LaunchTarget::Podman { name } => LaunchTarget::Podman { name: name.clone() },
        }
    }
}

pub open spec fn targets_view(targets: Seq<LaunchTarget>) -> Seq<TargetView> {
    targets.map_values(|t: LaunchTarget| t@)
}

/// The first index from `from` on whose target has this identifier.
pub open spec fn first_with_id(targets: Seq<TargetView>, id: Seq<char>, from: int) -> Option<int>
    decreases targets.len() - from,
{
    if from < 0 || from >= targets.len() {
        None
    } else if id_spec(targets[from]) == id {
        Some(from)
    } else {
        first_with_id(targets, id, from + 1)
    }
}

/// The first index from `from` on whose target is a container.
pub open spec fn first_container(targets: Seq<TargetView>, from: int) -> Option<int>
    decreases targets.len() - from,
{
    if from < 0 || from >= targets.len() {
        None
    } else if !(targets[from] is Host) {
        Some(from)
    } else {
        first_container(targets, from + 1)
    }
}

/// The target a new window starts in: the remembered one when it is still
/// available, else the first container, else the host.
pub open spec fn select_spec(targets: Seq<TargetView>, remembered: Option<Seq<char>>) -> TargetView {
    let found = match remembered {
        Some(id) => first_with_id(targets, id, 0),
        None => None,
    };
    match found {
        Some(i) => targets[i],
        None => match first_container(targets, 0) {
            Some(i) => targets[i],
            None => TargetView::Host,
        },
    }
}

proof fn lemma_first_with_id(targets: Seq<TargetView>, id: Seq<char>, from: int)
    requires
        0 <= from,
    ensures
        first_with_id(targets, id, from) matches Some(i) ==> from <= i < targets.len() && id_spec(
            targets[i],
        ) == id,
        (exists|k: int| from <= k < targets.len() && id_spec(#[trigger] targets[k]) == id) ==> first_with_id(
            targets,
            id,
            from,
        ) is Some,
    decreases targets.len() - from,
{
    if from < targets.len() && id_spec(targets[from]) != id {
        lemma_first_with_id(targets, id, from + 1);
        if exists|k: int| from <= k < targets.len() && id_spec(#[trigger] targets[k]) == id {
            let k = choose|k: int| from <= k < targets.len() && id_spec(#[trigger] targets[k]) == id;
            assert(k != from);
            assert(from + 1 <= k < targets.len() && id_spec(targets[k]) == id);
        }
    }
}

proof fn lemma_first_container(targets: Seq<TargetView>, from: int)
    requires
        0 <= from,
    ensures
        first_container(targets, from) matches Some(i) ==> from <= i < targets.len(),
    decreases targets.len() - from,
{
    if from < targets.len() && targets[from] is Host {
        lemma_first_container(targets, from + 1);
    }
}

fn position_with_id(targets: &[LaunchTarget], id: &str) -> (r: Option<usize>)
    ensures
        match r {
            Some(i) => first_with_id(targets_view(targets@), id@, 0) == Some(i as int),
            None => first_with_id(targets_view(targets@), id@, 0) is None,
        },
{
    let ghost ts = targets_view(targets@);
    let mut i: usize = 0;
    while i < targets.len()
        invariant
            ts == targets_view(targets@),
            i <= targets@.len(),
            first_with_id(ts, id@, 0) == first_with_id(ts, id@, i as int),
        decreases targets.len() - i,
    {
        let candidate = targets[i].id();
        proof {
            assert(ts[i as int] == targets@[i as int]@);
        }
        if str_eq(candidate.as_str(), id) {
            return Some(i);
        }
        i = i + 1;
    }
    None
}

fn position_of_container(targets: &[LaunchTarget]) -> (r: Option<usize>)
    ensures
        match r {
            Some(i) => first_container(targets_view(targets@), 0) == Some(i as int),
            None => first_container(targets_view(targets@), 0) is None,
        },
{
    let ghost ts = targets_view(targets@);
    let mut i: usize = 0;
    while i < targets.len()
        invariant
            ts == targets_view(targets@),
            i <= targets@.len(),
            first_container(ts, 0) == first_container(ts, i as int),
        decreases targets.len() - i,
    {
        proof {
            assert(ts[i as int] == targets@[i as int]@);
        }
        match &targets[i] {
            LaunchTarget::Host => {},
            _ => {
                return Some(i);
            },
        }
        i = i + 1;
    }
    None
}

pub fn select_startup_launch_target(targets: &[LaunchTarget], remembered_id: Option<String>) -> (r:
    LaunchTarget)
    ensures
        r@ == select_spec(
            targets_view(targets@),
            match remembered_id {
                Some(id) => Some(id@),
                None => None,
            },
        ),
{
    let ghost ts = targets_view(targets@);
    proof {
        lemma_first_container(ts, 0);
    }
    let found = match &remembered_id {
        Some(id) => position_with_id(targets, id.as_str()),
        None => None,
    };
    match found {
        Some(i) => {
            proof {
                let id = remembered_id.unwrap();
                lemma_first_with_id(ts, id@, 0);
                assert(ts[i as int] == targets@[i as int]@);
            }
            return targets[i].duplicate();
        },
        None => {},
    }
    match position_of_container(targets) {
        Some(i) => {
            proof {
                assert(ts[i as int] == targets@[i as int]@);
            }
            targets[i].duplicate()
        },
        None => LaunchTarget::Host,
    }
}

/// The target a new window starts in, by the configuration file's
/// `startup_launch_target` entry.
pub fn startup_launch_target(targets: &[LaunchTarget], config: &str) -> (r: LaunchTarget)
    ensures
        r@ == select_spec(targets_view(targets@), read_value_spec(config@, "startup_launch_target"@)),
{
    select_startup_launch_target(targets, read_value(config, "startup_launch_target"))
}

/// The configuration file with a target remembered for the next start.
pub fn remember_startup_launch_target(config: &str, target: &LaunchTarget) -> (r: String)
    ensures
        r@ == write_value_spec(config@, "startup_launch_target"@, id_spec(target@)),
{
    write_value(config, "startup_launch_target", target.id().as_str())
}

/// After a target is remembered, the next start picks a target with its
/// identifier, whenever one is available, for identifiers without line
/// feeds or surrounding white space.
pub proof fn law_remembered_target_starts(config: Seq<char>, targets: Seq<TargetView>, target: TargetView)
    requires
        exists|k: int| 0 <= k < targets.len() && #[trigger] targets[k] == target,
        free_of(id_spec(target), '\n'),
        trim_spec(id_spec(target)) == id_spec(target),
    ensures
        id_spec(
            select_spec(
                targets,
                read_value_spec(
                    write_value_spec(config, "startup_launch_target"@, id_spec(target)),
                    "startup_launch_target"@,
                ),
            ),
        ) == id_spec(target),
{
    let key = "startup_launch_target"@;
    reveal_strlit("startup_launch_target");
    assert(free_of(key, '='));
    assert(free_of(key, '\n'));
    law_read_after_write(config, key, id_spec(target));
    let k = choose|k: int| 0 <= k < targets.len() && #[trigger] targets[k] == target;
    assert(id_spec(targets[k]) == id_spec(target));
    lemma_first_with_id(targets, id_spec(target), 0);
}

/// The names of the toolbox containers that podman does not also list.
pub open spec fn toolbox_only(toolbox_names: Seq<Seq<char>>, podman: Seq<TargetView>) -> Seq<TargetView>
    decreases toolbox_names.len(),
{
    if toolbox_names.len() == 0 {
        Seq::empty()
    } else {
        let name = toolbox_names.last();
        let before = toolbox_only(toolbox_names.drop_last(), podman);
        if exists|k: int| 0 <= k < podman.len() && title_spec(#[trigger] podman[k]) == name {
            before
        } else {
            before.push(TargetView::Toolbox(name))
        }
    }
}

/// Every launch target: the host, the toolbox containers podman does not
/// list, then podman's containers.
pub open spec fn available_spec(toolbox_names: Seq<Seq<char>>, podman: Seq<TargetView>) -> Seq<TargetView> {
    seq![TargetView::Host] + toolbox_only(toolbox_names, podman) + podman
}

fn listed_by_podman(podman_targets: &[LaunchTarget], name: &str) -> (r: bool)
    ensures
        r == exists|k: int|
            0 <= k < podman_targets@.len() && title_spec(#[trigger] targets_view(podman_targets@)[k])
                == name@,
{
    let ghost pv = targets_view(podman_targets@);
    let mut i: usize = 0;
    while i < podman_targets.len()
        invariant
            pv == targets_view(podman_targets@),
            i <= podman_targets@.len(),
            forall|k: int| 0 <= k < i ==> title_spec(#[trigger] pv[k]) != name@,
        decreases podman_targets.len() - i,
    {
        if str_eq(podman_targets[i].title().as_str(), name) {
            assert(title_spec(pv[i as int]) == name@);
            return true;
        }
        i = i + 1;
    }
    false
}

/// Every launch target: the host, the toolbox containers podman does not
/// list, then podman's containers.
pub fn available_launch_targets(toolbox_names: Vec<String>, podman_targets: Vec<LaunchTarget>) -> (r: Vec<
    LaunchTarget,
>)
    ensures
        targets_view(r@) == available_spec(
            toolbox_names@.map_values(|n: String| n@),
            targets_view(podman_targets@),
        ),
{
    let ghost names = toolbox_names@.map_values(|n: String| n@);
    let ghost pv = targets_view(podman_targets@);
    let mut targets: Vec<LaunchTarget> = Vec::new();
    targets.push(LaunchTarget::Host);
    let mut i: usize = 0;
    while i < toolbox_names.len()
        invariant
            names == toolbox_names@.map_values(|n: String| n@),
            pv == targets_view(podman_targets@),
            i <= toolbox_names@.len(),
            targets_view(targets@) == seq![TargetView::Host] + toolbox_only(
                names.subrange(0, i as int),
                pv,
            ),
        decreases toolbox_names.len() - i,
    {
        proof {
            assert(names.subrange(0, i + 1).drop_last() =~= names.subrange(0, i as int));
            assert(names.subrange(0, i + 1).last() == toolbox_names@[i as int]@);
        }
        let name = toolbox_names[i].as_str();
        let ghost old_view = targets_view(targets@);
        if !listed_by_podman(podman_targets.as_slice(), name) {
            let target = LaunchTarget::Toolbox { name: String::from_str(name) };
            targets.push(target);
            proof {
                assert(targets_view(targets@) =~= old_view.push(TargetView::Toolbox(name@)));
            }
        }
        proof {
            assert(targets_view(targets@) =~= seq![TargetView::Host] + toolbox_only(
                names.subrange(0, i + 1),
                pv,
            ));
        }
        i = i + 1;
    }
    let ghost before = targets_view(targets@);
    let mut j: usize = 0;
    while j < podman_targets.len()
        invariant
            pv == targets_view(podman_targets@),
            j <= podman_targets@.len(),
            targets_view(targets@) == before + pv.subrange(0, j as int),
        decreases podman_targets.len() - j,
    {
        let ghost old_view = targets_view(targets@);
        let copy = podman_targets[j].duplicate();
        targets.push(copy);
        proof {
            assert(targets_view(targets@) =~= old_view.push(copy@));
            assert(pv[j as int] == podman_targets@[j as int]@);
            assert(targets_view(targets@) =~= before + pv.subrange(0, j + 1));
        }
        j = j + 1;
    }
    proof {
        assert(names.subrange(0, names.len() as int) =~= names);
        assert(pv.subrange(0, pv.len() as int) =~= pv);
    }
    targets
}

/// A string quoted for a POSIX shell: in single quotes, each single quote
/// written as `'\''`.
pub open spec fn quote_body(value: Seq<char>) -> Seq<char>
    decreases value.len(),
{
    if value.len() == 0 {
        Seq::empty()
    } else {
        quote_body(value.drop_last()) + if value.last() == '\'' {
            seq!['\'', '\\', '\'', '\'']
        } else {
            seq![value.last()]
        }
    }
}

pub open spec fn shell_quote_spec(value: Seq<char>) -> Seq<char> {
    seq!['\''] + quote_body(value) + seq!['\'']
}

pub fn shell_quote(value: &str) -> (r: String)
    ensures
        r@ == shell_quote_spec(value@),
{
    let mut out = String::new();
    push_char(&mut out, '\'');
    let n = value.unicode_len();
    let mut i: usize = 0;
    while i < n
        invariant
            n == value@.len(),
            i <= n,
            out@ == seq!['\''] + quote_body(value@.subrange(0, i as int)),
        decreases n - i,
    {
        let c = value.get_char(i);
        if c == '\'' {
            push_char(&mut out, '\'');
            push_char(&mut out, '\\');
            push_char(&mut out, '\'');
            push_char(&mut out, '\'');
        } else {
            push_char(&mut out, c);
        }
        proof {
            assert(value@.subrange(0, i + 1).drop_last() =~= value@.subrange(0, i as int));
            assert(out@ =~= seq!['\''] + quote_body(value@.subrange(0, i + 1)));
        }
        i = i + 1;
    }
    push_char(&mut out, '\'');
    assert(value@.subrange(0, n as int) =~= value@);
    out
}

/// The characters of `s` up to its first white space.
pub open spec fn leading_word(s: Seq<char>) -> Seq<char>
    decreases s.len(),
{
    if s.len() == 0 || is_whitespace_char(s[0]) {
        Seq::empty()
    } else {
        seq![s[0]] + leading_word(s.drop_first())
    }
}

/// What follows the first word of `s`.
pub open spec fn after_leading_word(s: Seq<char>) -> Seq<char>
    decreases s.len(),
{
    if s.len() == 0 || is_whitespace_char(s[0]) {
        s
    } else {
        after_leading_word(s.drop_first())
    }
}

/// The container name on one row of `toolbox list`: the second column, or
/// the only one; none for blank and header rows.
pub open spec fn toolbox_row_name(line: Seq<char>) -> Option<Seq<char>> {
    let t = trim_spec(line);
    if t.len() == 0 || has_prefix(t, "CONTAINER ID"@) || has_prefix(t, "ID "@) {
        None
    } else {
        let second = trim_front(after_leading_word(t));
        if second.len() > 0 {
            Some(leading_word(second))
        } else {
            Some(leading_word(t))
        }
    }
}

/// The container names of `toolbox list` output, row by row.
pub open spec fn toolbox_names_of(lines: Seq<Seq<char>>) -> Seq<Seq<char>>
    decreases lines.len(),
{
    if lines.len() == 0 {
        Seq::empty()
    } else {
        let before = toolbox_names_of(lines.drop_last());
        match toolbox_row_name(lines.last()) {
            Some(name) => before.push(name),
            None => before,
        }
    }
}

fn starts_with(s: &str, prefix: &str) -> (r: bool)
    ensures
        r == has_prefix(s@, prefix@),
{
    let n = s.unicode_len();
    let m = prefix.unicode_len();
    if m > n {
        return false;
    }
    let head = s.substring_char(0, m);
    let r = str_eq(head, prefix);
    proof {
        assert(head@ =~= s@.subrange(0, m as int));
    }
    r
}

/// The first word of `s` from `from` on, and where it ends.
fn word_from(s: &str, from: usize) -> (r: (String, usize))
    requires
        from <= s@.len(),
    ensures
        r.0@ == leading_word(s@.subrange(from as int, s@.len() as int)),
        from <= r.1 <= s@.len(),
        after_leading_word(s@.subrange(from as int, s@.len() as int)) == s@.subrange(
            r.1 as int,
            s@.len() as int,
        ),
{
    let n = s.unicode_len();
    let mut i = from;
    while i < n && !char_is_whitespace(s.get_char(i))
        invariant
            n == s@.len(),
            from <= i <= n,
            forall|j: int| from <= j < i ==> !is_whitespace_char(#[trigger] s@[j]),
        decreases n - i,
    {
        i = i + 1;
    }
    proof {
        lemma_word_split(s@, from as int, i as int);
    }
    (String::from_str(s.substring_char(from, i)), i)
}

proof fn lemma_word_split(s: Seq<char>, from: int, i: int)
    requires
        0 <= from <= i <= s.len(),
        forall|j: int| from <= j < i ==> !is_whitespace_char(#[trigger] s[j]),
        i == s.len() || is_whitespace_char(s[i]),
    ensures
        leading_word(s.subrange(from, s.len() as int)) == s.subrange(from, i),
        after_leading_word(s.subrange(from, s.len() as int)) == s.subrange(i, s.len() as int),
    decreases i - from,
{
    let t = s.subrange(from, s.len() as int);
    if from == i {
        assert(s.subrange(from, i) =~= Seq::<char>::empty());
    } else {
        assert(t.drop_first() =~= s.subrange(from + 1, s.len() as int));
        lemma_word_split(s, from + 1, i);
        assert(s.subrange(from, i) =~= seq![s[from]] + s.subrange(from + 1, i));
    }
}

fn skip_space(s: &str, from: usize) -> (r: usize)
    requires
        from <= s@.len(),
    ensures
        from <= r <= s@.len(),
        trim_front(s@.subrange(from as int, s@.len() as int)) == s@.subrange(r as int, s@.len() as int),
{
    let n = s.unicode_len();
    let mut i = from;
    while i < n && char_is_whitespace(s.get_char(i))
        invariant
            n == s@.len(),
            from <= i <= n,
            trim_front(s@.subrange(from as int, n as int)) == trim_front(s@.subrange(i as int, n as int)),
        decreases n - i,
    {
        proof {
            assert(s@.subrange(i as int, n as int).drop_first() =~= s@.subrange(i + 1, n as int));
        }
        i = i + 1;
    }
    i
}

fn toolbox_name(line: &str) -> (r: Option<String>)
    ensures
        match r {
            Some(name) => toolbox_row_name(line@) == Some(name@),
            None => toolbox_row_name(line@) is None,
        },
{
    let t = trim(line);
    let t = t.as_str();
    let n = t.unicode_len();
    if n == 0 || starts_with(t, "CONTAINER ID") || starts_with(t, "ID ") {
        return None;
    }
    assert(t@.subrange(0, n as int) =~= t@);
    let (first, end) = word_from(t, 0);
    let second_start = skip_space(t, end);
    if second_start < n {
        let (second, _) = word_from(t, second_start);
        Some(second)
    } else {
        assert(t@.subrange(second_start as int, n as int) =~= Seq::<char>::empty());
        Some(first)
    }
}

/// The container names in `toolbox list` output.
pub fn parse_toolbox_list(output: &str) -> (r: Vec<String>)
    ensures
        r@.map_values(|n: String| n@) == toolbox_names_of(lines_of(output@)),
{
    let lines = text_lines(output);
    let ghost all = lines@.map_values(|l: String| l@);
    let mut names: Vec<String> = Vec::new();
    let mut i: usize = 0;
    while i < lines.len()
        invariant
            all == lines@.map_values(|l: String| l@),
            all == lines_of(output@),
            i <= lines@.len(),
            names@.map_values(|n: String| n@) == toolbox_names_of(all.subrange(0, i as int)),
        decreases lines.len() - i,
    {
        proof {
            assert(all.subrange(0, i + 1).drop_last() =~= all.subrange(0, i as int));
            assert(all.subrange(0, i + 1).last() == lines@[i as int]@);
        }
        let ghost before = names@.map_values(|n: String| n@);
        match toolbox_name(lines[i].as_str()) {
            Some(name) => {
                names.push(name);
                assert(names@.map_values(|n: String| n@) =~= before.push(name@));
            },
            None => {},
        }
        i = i + 1;
    }
    assert(all.subrange(0, all.len() as int) =~= all);
    names
}

/// A container as `podman ps --format=json` lists it: whether it is an
/// infra container, its labels (an object, so no key twice) and its names.
#[derive(Clone, Debug, PartialEq, Eq)]
pub struct PodmanContainer {
    pub is_infra: Option<bool>,
    pub labels: Vec<(String, String)>,
    pub names: Vec<String>,
}

/// The value of the first label with this key.
pub open spec fn label_of(labels: Seq<(Seq<char>, Seq<char>)>, key: Seq<char>) -> Option<Seq<char>>
    decreases labels.len(),
{
    if labels.len() == 0 {
        None
    } else if labels[0].0 == key {
        Some(labels[0].1)
    } else {
        label_of(labels.drop_first(), key)
    }
}

pub open spec fn labels_view(labels: Vec<(String, String)>) -> Seq<(Seq<char>, Seq<char>)> {
    labels@.map_values(|e: (String, String)| (e.0@, e.1@))
}

/// Labels as a map holds them: no key twice.
pub open spec fn labels_distinct(labels: Seq<(Seq<char>, Seq<char>)>) -> bool {
    forall|i: int, j: int|
        0 <= i < j < labels.len() ==> (#[trigger] labels[i]).0 != (#[trigger] labels[j]).0
}

/// With no key twice, looking a key up finds exactly the value it is
/// listed with, wherever it stands in the list.
pub proof fn law_label_lookup_finds_the_listed_value(
    labels: Seq<(Seq<char>, Seq<char>)>,
    key: Seq<char>,
    value: Seq<char>,
)
    requires
        labels_distinct(labels),
    ensures
        label_of(labels, key) == Some(value) <==> exists|i: int|
            0 <= i < labels.len() && #[trigger] labels[i] == (key, value),
        label_of(labels, key) is None <==> forall|i: int|
            0 <= i < labels.len() ==> (#[trigger] labels[i]).0 != key,
    decreases labels.len(),
{
    if labels.len() > 0 {
        let rest = labels.drop_first();
        assert forall|i: int, j: int| 0 <= i < j < rest.len() implies (#[trigger] rest[i]).0
            != (#[trigger] rest[j]).0 by {
            assert(rest[i] == labels[i + 1] && rest[j] == labels[j + 1]);
        }
        law_label_lookup_finds_the_listed_value(rest, key, value);
        if labels[0].0 == key {
            if exists|i: int| 0 <= i < labels.len() && #[trigger] labels[i] == (key, value) {
                let i = choose|i: int| 0 <= i < labels.len() && #[trigger] labels[i] == (key, value);
                if i > 0 {
                    assert(labels[0].0 != labels[i].0);
                }
            }
        } else {
            if exists|i: int| 0 <= i < labels.len() && #[trigger] labels[i] == (key, value) {
                let i = choose|i: int| 0 <= i < labels.len() && #[trigger] labels[i] == (key, value);
                assert(i > 0);
                assert(rest[i - 1] == labels[i]);
            }
            if exists|i: int| 0 <= i < rest.len() && #[trigger] rest[i] == (key, value) {
                let i = choose|i: int| 0 <= i < rest.len() && #[trigger] rest[i] == (key, value);
                assert(labels[i + 1] == rest[i]);
            }
            assert forall|i: int| 0 <= i < labels.len() && (forall|j: int|
                0 <= j < rest.len() ==> (#[trigger] rest[j]).0 != key) implies (#[trigger] labels[i]).0
                != key by {
                if i > 0 {
                    assert(labels[i] == rest[i - 1]);
                }
            }
            if exists|i: int| 0 <= i < rest.len() && (#[trigger] rest[i]).0 == key {
                let i = choose|i: int| 0 <= i < rest.len() && (#[trigger] rest[i]).0 == key;
                assert(labels[i + 1] == rest[i]);
            }
        }
    }
}

/// The launch target of a listed container: none for an infra container or
/// one without a name; a distrobox (or apx) container by its `manager`
/// label, a toolbox container by its toolbox label, else a plain podman
/// container.
pub open spec fn container_target(c: PodmanContainer) -> Option<TargetView> {
    if c.is_infra == Some(true) || c.names@.len() == 0 {
        None
    } else {
        let name = c.names@[0]@;
        let labels = labels_view(c.labels);
        if label_of(labels, "manager"@) == Some("distrobox"@) || label_of(labels, "manager"@) == Some(
            "apx"@,
        ) {
            Some(
                TargetView::Distrobox(
                    name,
                    label_of(labels, "distrobox.unshare_groups"@) == Some("1"@),
                ),
            )
        } else if label_of(labels, "com.github.containers.toolbox"@) is Some || label_of(
            labels,
            "org.containers.toolbox"@,
        ) is Some {
            Some(TargetView::Toolbox(name))
        } else {
            Some(TargetView::Podman(name))
        }
    }
}

/// The launch targets of listed containers, in order.
pub open spec fn podman_targets_spec(containers: Seq<PodmanContainer>) -> Seq<TargetView>
    decreases containers.len(),
{
    if containers.len() == 0 {
        Seq::empty()
    } else {
        let before = podman_targets_spec(containers.drop_last());
        match container_target(containers.last()) {
            Some(t) => before.push(t),
            None => before,
        }
    }
}

fn find_label(labels: &Vec<(String, String)>, key: &str) -> (r: Option<String>)
    ensures
        match r {
            Some(v) => label_of(labels_view(*labels), key@) == Some(v@),
            None => label_of(labels_view(*labels), key@) is None,
        },
{
    let ghost all = labels_view(*labels);
    let mut i: usize = 0;
    assert(all.subrange(0, all.len() as int) =~= all);
    while i < labels.len()
        invariant
            all == labels_view(*labels),
            i <= labels@.len(),
            label_of(all, key@) == label_of(all.subrange(i as int, all.len() as int), key@),
        decreases labels.len() - i,
    {
        proof {
            assert(all.subrange(i as int, all.len() as int).drop_first() =~= all.subrange(
                i + 1,
                all.len() as int,
            ));
            assert(all[i as int] == (labels@[i as int].0@, labels@[i as int].1@));
            assert(all.subrange(i as int, all.len() as int)[0] == all[i as int]);
        }
        if str_eq(labels[i].0.as_str(), key) {
            return Some(labels[i].1.clone());
        }
        i = i + 1;
    }
    None
}

fn label_is(labels: &Vec<(String, String)>, key: &str, value: &str) -> (r: bool)
    ensures
        r == (label_of(labels_view(*labels), key@) == Some(value@)),
{
    match find_label(labels, key) {
        Some(v) => str_eq(v.as_str(), value),
        None => false,
    }
}

fn container_launch_target(c: &PodmanContainer) -> (r: Option<LaunchTarget>)
    ensures
        match r {
            Some(t) => container_target(*c) == Some(t@),
            None => container_target(*c) is None,
        },
{
    match c.is_infra {
        Some(true) => return None,
        _ => {},
    }
    if c.names.len() == 0 {
        return None;
    }
    let name = c.names[0].clone();
    if label_is(&c.labels, "manager", "distrobox") || label_is(&c.labels, "manager", "apx") {
        let has_unshared_groups = label_is(&c.labels, "distrobox.unshare_groups", "1");
        return Some(LaunchTarget::Distrobox { name, has_unshared_groups });
    }
    if find_label(&c.labels, "com.github.containers.toolbox").is_some() || find_label(
        &c.labels,
        "org.containers.toolbox",
    ).is_some() {
        return Some(LaunchTarget::Toolbox { name });
    }
    Some(LaunchTarget::Podman { name })
}

/// The launch targets of the containers podman lists, in order.
pub fn parse_podman_targets(containers: &[PodmanContainer]) -> (r: Vec<LaunchTarget>)
    requires
        forall|i: int|
            0 <= i < containers@.len() ==> labels_distinct(labels_view(#[trigger] containers@[i].labels)),
    ensures
        targets_view(r@) == podman_targets_spec(containers@),
{
    let mut targets: Vec<LaunchTarget> = Vec::new();
    let mut i: usize = 0;
    while i < containers.len()
        invariant
            i <= containers@.len(),
            targets_view(targets@) == podman_targets_spec(containers@.subrange(0, i as int)),
        decreases containers.len() - i,
    {
        proof {
            assert(containers@.subrange(0, i + 1).drop_last() =~= containers@.subrange(0, i as int));
        }
        let ghost before = targets_view(targets@);
        match container_launch_target(&containers[i]) {
            Some(t) => {
                targets.push(t);
                assert(targets_view(targets@) =~= before.push(t@));
            },
            None => {},
        }
        i = i + 1;
    }
    assert(containers@.subrange(0, containers@.len() as int) =~= containers@);
    targets
}

/// The directory a container shell starts in: the working directory when it
/// is not blank, else the home directory.
pub fn launch_working_directory(pwd: Option<String>, home: Option<String>) -> (r: Option<String>)
    ensures
        match pwd {
            Some(p) if trim_spec(p@).len() > 0 => r == Some(p),
            _ => r == home,
        },
{
    match pwd {
        Some(p) => {
            if trim(p.as_str()).unicode_len() > 0 {
                Some(p)
            } else {
                home
            }
        },
        None => home,
    }
}

/// What launching a shell needs to know of the user's shell and of its
/// input bridge.
pub struct ShellLaunch {
    /// The shell's argument list.
    pub argv: Vec<String>,
    /// The same, as one command line for `sh -c`.
    pub command_line: String,
    /// Whether the shell has the input-edit bridge.
    pub input_edit_bridge: bool,
    /// The variable that tells the shell the bridge is on, and its value.
    pub bridge_env: String,
    pub bridge_value: String,
    /// The variable that names the cursor-target file, and the placeholder
    /// it holds until the file exists.
    pub target_file_env: String,
    pub target_file_placeholder: String,
}

pub struct ShellView {
    pub argv: Seq<Seq<char>>,
    pub command_line: Seq<char>,
    pub input_edit_bridge: bool,
    pub bridge_env: Seq<char>,
    pub bridge_value: Seq<char>,
    pub target_file_env: Seq<char>,
    pub target_file_placeholder: Seq<char>,
}

pub open spec fn strings_view(v: Seq<String>) -> Seq<Seq<char>> {
    v.map_values(|a: String| a@)
}

pub open spec fn pairs_view(v: Seq<(String, String)>) -> Seq<(Seq<char>, Seq<char>)> {
    v.map_values(|p: (String, String)| (p.0@, p.1@))
}

impl View for ShellLaunch {
    type V = ShellView;

    open spec fn view(&self) -> ShellView {
        ShellView {
            argv: strings_view(self.argv@),
            command_line: self.command_line@,
            input_edit_bridge: self.input_edit_bridge,
            bridge_env: self.bridge_env@,
            bridge_value: self.bridge_value@,
            target_file_env: self.target_file_env@,
            target_file_placeholder: self.target_file_placeholder@,
        }
    }
}

/// A command to spawn: its argument list and the variables it adds to the
/// environment.
pub struct LaunchCommand {
    pub argv: Vec<String>,
    pub env: Vec<(String, String)>,
}

pub open spec fn opt_chars(o: Option<&str>) -> Option<Seq<char>> {
    match o {
        Some(s) => Some(s@),
        None => None,
    }
}

/// The environment a container launch marks: the bridge variable when the
/// shell has the bridge.
pub open spec fn bridge_env_spec(shell: ShellView) -> Seq<(Seq<char>, Seq<char>)> {
    if shell.input_edit_bridge {
        seq![(shell.bridge_env, shell.bridge_value)]
    } else {
        Seq::empty()
    }
}

/// `NAME=placeholder` for the cursor-target file.
pub open spec fn target_file_assignment(shell: ShellView) -> Seq<char> {
    shell.target_file_env + "="@ + shell.target_file_placeholder
}

/// `distrobox enter`: without unshared groups it asks for no tty and passes
/// `--tty` to podman instead; then `env` with the working directory and the
/// cursor-target variable, then the shell.
pub open spec fn distrobox_argv_spec(
    name: Seq<char>,
    has_unshared_groups: bool,
    size: Option<ScreenSize>,
    is_flatpak: bool,
    working_directory: Option<Seq<char>>,
    shell: ShellView,
) -> Seq<Seq<char>> {
    command_argv_spec("distrobox"@, size, is_flatpak) + seq!["enter"@] + (if has_unshared_groups {
        Seq::empty()
    } else {
        seq!["--no-tty"@]
    }) + seq![name] + (if has_unshared_groups {
        Seq::empty()
    } else {
        seq!["--additional-flags"@, "--tty"@]
    }) + seq!["--"@, "env"@] + (match working_directory {
        Some(d) => seq!["--chdir="@ + d],
        None => Seq::empty(),
    }) + (if shell.input_edit_bridge {
        seq![target_file_assignment(shell)]
    } else {
        Seq::empty()
    }) + shell.argv
}

/// The `sh -lc` script that starts a podman container and runs the shell in
/// it; a toolbox-like container runs as the user in the working directory.
pub open spec fn podman_script_spec(
    name: Seq<char>,
    is_toolbox_like: bool,
    user: Option<Seq<char>>,
    working_directory: Option<Seq<char>>,
    shell: ShellView,
) -> Seq<char> {
    "podman start "@ + shell_quote_spec(name)
        + " >/dev/null 2>&1 || true; exec podman exec --privileged --interactive --tty --detach-keys= "@
        + (if shell.input_edit_bridge {
        "--env="@ + target_file_assignment(shell) + " "@
    } else {
        Seq::empty()
    }) + (if is_toolbox_like {
        (match user {
            Some(u) => "--user="@ + shell_quote_spec(u) + " "@,
            None => Seq::empty(),
        }) + (match working_directory {
            Some(d) => "--workdir="@ + shell_quote_spec(d) + " "@,
            None => Seq::empty(),
        })
    } else {
        Seq::empty()
    }) + shell_quote_spec(name) + " "@ + shell.command_line
}

pub open spec fn podman_argv_spec(
    name: Seq<char>,
    is_toolbox_like: bool,
    size: Option<ScreenSize>,
    is_flatpak: bool,
    user: Option<Seq<char>>,
    working_directory: Option<Seq<char>>,
    shell: ShellView,
) -> Seq<Seq<char>> {
    command_argv_spec("/bin/sh"@, size, is_flatpak) + seq![
        "-lc"@,
        podman_script_spec(name, is_toolbox_like, user, working_directory, shell),
    ]
}

fn push_arg(argv: &mut Vec<String>, arg: String)
    ensures
        strings_view(final(argv)@) == strings_view(old(argv)@).push(arg@),
{
    let ghost before = argv@;
    argv.push(arg);
    assert(strings_view(argv@) =~= strings_view(before).push(arg@));
}

fn literal(s: &str) -> (r: String)
    ensures
        r@ == s@,
{
    String::from_str(s)
}

fn bridge_env(shell: &ShellLaunch) -> (r: Vec<(String, String)>)
    ensures
        pairs_view(r@) == bridge_env_spec(shell@),
{
    let mut env: Vec<(String, String)> = Vec::new();
    if shell.input_edit_bridge {
        env.push((shell.bridge_env.clone(), shell.bridge_value.clone()));
    }
    assert(pairs_view(env@) =~= bridge_env_spec(shell@));
    env
}

fn target_assignment(shell: &ShellLaunch) -> (r: String)
    ensures
        r@ == target_file_assignment(shell@),
{
    let mut a = shell.target_file_env.clone();
    push_str(&mut a, "=");
    push_str(&mut a, shell.target_file_placeholder.as_str());
    a
}

/// The `distrobox enter` command for a container.
pub fn distrobox_command(
    name: &str,
    has_unshared_groups: bool,
    size: Option<ScreenSize>,
    is_flatpak: bool,
    working_directory: Option<&str>,
    shell: &ShellLaunch,
) -> (r: LaunchCommand)
    ensures
        strings_view(r.argv@) == distrobox_argv_spec(
            name@,
            has_unshared_groups,
            size,
            is_flatpak,
            opt_chars(working_directory),
            shell@,
        ),
        pairs_view(r.env@) == bridge_env_spec(shell@),
{
    let mut argv = command_argv("distrobox", size, is_flatpak);
    let ghost base = strings_view(argv@);
    push_arg(&mut argv, literal("enter"));
    if !has_unshared_groups {
        push_arg(&mut argv, literal("--no-tty"));
    }
    push_arg(&mut argv, literal(name));
    if !has_unshared_groups {
        push_arg(&mut argv, literal("--additional-flags"));
        push_arg(&mut argv, literal("--tty"));
    }
    push_arg(&mut argv, literal("--"));
    push_arg(&mut argv, literal("env"));
    let ghost before_dir = strings_view(argv@);
    match working_directory {
        Some(d) => {
            let mut chdir = literal("--chdir=");
            push_str(&mut chdir, d);
            push_arg(&mut argv, chdir);
        },
        None => {},
    }
    let ghost before_target = strings_view(argv@);
    if shell.input_edit_bridge {
        push_arg(&mut argv, target_assignment(shell));
    }
    let ghost before_shell = strings_view(argv@);
    let mut i: usize = 0;
    while i < shell.argv.len()
        invariant
            i <= shell.argv@.len(),
            strings_view(argv@) == before_shell + strings_view(shell.argv@).subrange(0, i as int),
        decreases shell.argv.len() - i,
    {
        push_arg(&mut argv, shell.argv[i].clone());
        assert(strings_view(shell.argv@).subrange(0, i + 1) =~= strings_view(shell.argv@).subrange(
            0,
            i as int,
        ).push(shell.argv@[i as int]@));
        i = i + 1;
    }
    assert(strings_view(shell.argv@).subrange(0, shell.argv@.len() as int) =~= strings_view(
        shell.argv@,
    ));
    assert(strings_view(argv@) =~= distrobox_argv_spec(
        name@,
        has_unshared_groups,
        size,
        is_flatpak,
        opt_chars(working_directory),
        shell@,
    ));
    LaunchCommand { argv, env: bridge_env(shell) }
}

fn podman_script(
    name: &str,
    is_toolbox_like: bool,
    user: Option<&str>,
    working_directory: Option<&str>,
    shell: &ShellLaunch,
) -> (r: String)
    ensures
        r@ == podman_script_spec(
            name@,
            is_toolbox_like,
            opt_chars(user),
            opt_chars(working_directory),
            shell@,
        ),
{
    let quoted = shell_quote(name);
    let mut exec = literal("podman start ");
    push_str(&mut exec, quoted.as_str());
    push_str(
        &mut exec,
        " >/dev/null 2>&1 || true; exec podman exec --privileged --interactive --tty --detach-keys= ",
    );
    let ghost head = exec@;
    if shell.input_edit_bridge {
        push_str(&mut exec, "--env=");
        let a = target_assignment(shell);
        push_str(&mut exec, a.as_str());
        push_str(&mut exec, " ");
    }
    let ghost with_env = exec@;
    if is_toolbox_like {
        match user {
            Some(u) => {
                push_str(&mut exec, "--user=");
                let q = shell_quote(u);
                push_str(&mut exec, q.as_str());
                push_str(&mut exec, " ");
            },
            None => {},
        }
        match working_directory {
            Some(d) => {
                push_str(&mut exec, "--workdir=");
                let q = shell_quote(d);
                push_str(&mut exec, q.as_str());
                push_str(&mut exec, " ");
            },
            None => {},
        }
    }
    push_str(&mut exec, quoted.as_str());
    push_str(&mut exec, " ");
    push_str(&mut exec, shell.command_line.as_str());
    assert(exec@ =~= podman_script_spec(
        name@,
        is_toolbox_like,
        opt_chars(user),
        opt_chars(working_directory),
        shell@,
    ));
    exec
}

/// The command that runs the shell inside a podman container through
/// `sh -lc`.
pub fn podman_exec_command(
    name: &str,
    is_toolbox_like: bool,
    size: Option<ScreenSize>,
    is_flatpak: bool,
    user: Option<&str>,
    working_directory: Option<&str>,
    shell: &ShellLaunch,
) -> (r: LaunchCommand)
    ensures
        strings_view(r.argv@) == podman_argv_spec(
            name@,
            is_toolbox_like,
            size,
            is_flatpak,
            opt_chars(user),
            opt_chars(working_directory),
            shell@,
        ),
        pairs_view(r.env@) == bridge_env_spec(shell@),
{
    let mut argv = command_argv("/bin/sh", size, is_flatpak);
    push_arg(&mut argv, literal("-lc"));
    push_arg(&mut argv, podman_script(name, is_toolbox_like, user, working_directory, shell));
    assert(strings_view(argv@) =~= podman_argv_spec(
        name@,
        is_toolbox_like,
        size,
        is_flatpak,
        opt_chars(user),
        opt_chars(working_directory),
        shell@,
    ));
    LaunchCommand { argv, env: bridge_env(shell) }
}

impl LaunchTarget {
    /// The command that opens a shell in this target: `distrobox enter` for
    /// a distrobox, the podman script for a toolbox (as the user, in the
    /// working directory) or a plain podman container. None for the host,
    /// whose shell is started by the shell's own launcher.
    pub fn command_with_size(
        &self,
        size: Option<ScreenSize>,
        is_flatpak: bool,
        user: Option<&str>,
        working_directory: Option<&str>,
        shell: &ShellLaunch,
    ) -> (r: Option<LaunchCommand>)
        ensures
            match self@ {
                TargetView::Host => r is None,
                TargetView::Distrobox(name, unshared) => r matches Some(c) && strings_view(c.argv@)
                    == distrobox_argv_spec(
                    name,
                    unshared,
                    size,
                    is_flatpak,
                    opt_chars(working_directory),
                    shell@,
                ) && pairs_view(c.env@) == bridge_env_spec(shell@),
                TargetView::Toolbox(name) => r matches Some(c) && strings_view(c.argv@)
                    == podman_argv_spec(
                    name,
                    true,
                    size,
                    is_flatpak,
                    opt_chars(user),
                    opt_chars(working_directory),
                    shell@,
                ) && pairs_view(c.env@) == bridge_env_spec(shell@),
                TargetView::Podman(name) => r matches Some(c) && strings_view(c.argv@)
                    == podman_argv_spec(
                    name,
                    false,
                    size,
                    is_flatpak,
                    opt_chars(user),
                    opt_chars(working_directory),
                    shell@,
                ) && pairs_view(c.env@) == bridge_env_spec(shell@),
            },
    {
        match self {
            LaunchTarget::Host => None,
            LaunchTarget::Distrobox { name, has_unshared_groups } => Some(
                distrobox_command(
                    name.as_str(),
                    *has_unshared_groups,
                    size,
                    is_flatpak,
                    working_directory,
                    shell,
                ),
            ),
            LaunchTarget::Toolbox { name } => Some(
                podman_exec_command(
                    name.as_str(),
                    true,
                    size,
                    is_flatpak,
                    user,
                    working_directory,
                    shell,
                ),
            ),
            LaunchTarget::Podman { name } => Some(
                podman_exec_command(
                    name.as_str(),
                    false,
                    size,
                    is_flatpak,
                    user,
                    working_directory,
                    shell,
                ),
            ),
        }
    }
}

/// The target to remember when a window closes: the active tab's target
/// when it is the only tab and a container; none otherwise.
pub fn single_tab_launch_target_to_remember(tab_count: usize, active_target: Option<&LaunchTarget>) -> (r:
    Option<LaunchTarget>)
    ensures
        match r {
            Some(t) => tab_count == 1 && (active_target matches Some(a) && t@ == a@) && !(t@ is Host),
            None => tab_count != 1 || active_target is None || (active_target matches Some(a)
                && a@ is Host),
        },
{
    if tab_count != 1 {
        return None;
    }
    match active_target {
        Some(LaunchTarget::Host) => None,
        Some(target) => Some(target.duplicate()),
        None => None,
    }
}

/// The shell to run: the first of the configured shell and the login shell
/// that is not blank, else `/bin/sh`.
pub open spec fn shell_program_spec(configured: Option<Seq<char>>, login: Option<Seq<char>>) -> Seq<char> {
    match configured {
        Some(c) if trim_spec(c).len() > 0 => c,
        _ => match login {
            Some(l) if trim_spec(l).len() > 0 => l,
            _ => "/bin/sh"@,
        },
    }
}

pub fn shell_program(configured: Option<&str>, login: Option<&str>) -> (r: String)
    ensures
        r@ == shell_program_spec(opt_chars(configured), opt_chars(login)),
{
    match configured {
        Some(c) => {
            if trim(c).unicode_len() > 0 {
                return String::from_str(c);
            }
        },
        None => {},
    }
    match login {
        Some(l) => {
            if trim(l).unicode_len() > 0 {
                return String::from_str(l);
            }
        },
        None => {},
    }
    String::from_str("/bin/sh")
}

/// The last component of a path: what follows its last `/`.
pub open spec fn file_name_of(path: Seq<char>) -> Seq<char>
    decreases path.len(),
{
    if path.len() == 0 {
        path
    } else if path.last() == '/' {
        Seq::empty()
    } else {
        file_name_of(path.drop_last()).push(path.last())
    }
}

fn file_name(path: &str) -> (r: String)
    ensures
        r@ == file_name_of(path@),
{
    let n = path.unicode_len();
    let mut start: usize = n;
    assert(path@.subrange(0, n as int) =~= path@);
    assert(path@.subrange(n as int, n as int) =~= Seq::<char>::empty());
    assert(file_name_of(path@) + Seq::<char>::empty() =~= file_name_of(path@));
    while start > 0 && path.get_char(start - 1) != '/'
        invariant
            n == path@.len(),
            start <= n,
            file_name_of(path@) == file_name_of(path@.subrange(0, start as int)) + path@.subrange(
                start as int,
                n as int,
            ),
        decreases start,
    {
        proof {
            let p = path@.subrange(0, start as int);
            assert(p.drop_last() =~= path@.subrange(0, start - 1));
            assert(path@.subrange(start - 1, n as int) =~= seq![p.last()] + path@.subrange(
                start as int,
                n as int,
            ));
            assert(file_name_of(p) == file_name_of(p.drop_last()).push(p.last()));
            assert(file_name_of(p.drop_last()).push(p.last()) + path@.subrange(start as int, n as int)
                =~= file_name_of(p.drop_last()) + path@.subrange(start - 1, n as int));
        }
        start = start - 1;
    }
    proof {
        if start > 0 {
            assert(path@.subrange(0, start as int).last() == '/');
        }
        assert(file_name_of(path@.subrange(0, start as int)) =~= Seq::<char>::empty());
        assert(path@.subrange(0, n as int) =~= path@);
    }
    String::from_str(path.substring_char(start, n))
}

/// The shell launch for a shell program: the program alone as its argument
/// list and, quoted, as its command line; the input bridge when the program
/// is fish; and the names the bridge is passed by.
pub fn shell_launch_for(
    program: &str,
    bridge_env: &str,
    bridge_value: &str,
    target_file_env: &str,
    target_file_placeholder: &str,
) -> (r: ShellLaunch)
    ensures
        r@ == (ShellView {
            argv: seq![program@],
            command_line: shell_quote_spec(program@),
            input_edit_bridge: file_name_of(program@) == "fish"@,
            bridge_env: bridge_env@,
            bridge_value: bridge_value@,
            target_file_env: target_file_env@,
            target_file_placeholder: target_file_placeholder@,
        }),
{
    let name = file_name(program);
    let mut argv: Vec<String> = Vec::new();
    argv.push(String::from_str(program));
    assert(strings_view(argv@) =~= seq![program@]);
    ShellLaunch {
        argv,
        command_line: shell_quote(program),
        input_edit_bridge: str_eq(name.as_str(), "fish"),
        bridge_env: String::from_str(bridge_env),
        bridge_value: String::from_str(bridge_value),
        target_file_env: String::from_str(target_file_env),
        target_file_placeholder: String::from_str(target_file_placeholder),
    }
}

/// The host shell's own command: the shell's program run on the host
/// (through `flatpak-spawn` inside Flatpak, with the terminal size), then
/// the rest of its arguments; marked for the input bridge when it has one.
pub fn host_shell_command(shell: &ShellLaunch, size: Option<ScreenSize>, is_flatpak: bool) -> (r:
    LaunchCommand)
    requires
        shell.argv@.len() > 0,
    ensures
        strings_view(r.argv@) == command_argv_spec(shell@.argv[0], size, is_flatpak) + shell@.argv.skip(
            1,
        ),
        pairs_view(r.env@) == bridge_env_spec(shell@),
{
    let mut argv = command_argv(shell.argv[0].as_str(), size, is_flatpak);
    let ghost base = strings_view(argv@);
    let mut i: usize = 1;
    while i < shell.argv.len()
        invariant
            1 <= i <= shell.argv@.len(),
            strings_view(argv@) == base + strings_view(shell.argv@).subrange(1, i as int),
        decreases shell.argv.len() - i,
    {
        push_arg(&mut argv, shell.argv[i].clone());
        assert(strings_view(shell.argv@).subrange(1, i + 1) =~= strings_view(shell.argv@).subrange(
            1,
            i as int,
        ).push(shell.argv@[i as int]@));
        i = i + 1;
    }
    assert(strings_view(shell.argv@).subrange(1, shell.argv@.len() as int) =~= strings_view(
        shell.argv@,
    ).skip(1));
    LaunchCommand { argv, env: bridge_env(shell) }
}

} // verus!
