//! Where the output of guest components goes: into one log file for each
//! component and stream, and, for the components that are followed, also onto
//! the host's own diagnostic stream.

use std::path::PathBuf;
use vstd::prelude::*;
use vstd::string::*;

verus! {

/// The texts of a list of strings.
pub open spec fn texts(strings: Seq<String>) -> Seq<Seq<char>> {
    Seq::new(strings.len(), |i: int| strings[i]@)
}

/// Whether the bytes `a` and `b` are the same in their first `k` places.
pub open spec fn agree_to(a: Seq<u8>, b: Seq<u8>, k: int) -> bool {
    &&& 0 <= k <= a.len()
    &&& k <= b.len()
    &&& forall|i: int| 0 <= i < k ==> a[i] == b[i]
}

/// The order of a dictionary on bytes: `a` comes before `b`, or is `b`, where
/// `a` is a beginning of `b` or has the smaller byte at the first place
/// where the two differ.
pub open spec fn bytes_le(a: Seq<u8>, b: Seq<u8>) -> bool {
    exists|k: int| #[trigger] agree_to(a, b, k) && (k == a.len() || (k < b.len() && a[k] < b[k]))
}

/// The order in which names are listed: that of their bytes in UTF-8, which
/// is the order of `str`.
pub open spec fn text_le(a: Seq<char>, b: Seq<char>) -> bool {
    bytes_le(vstd::utf8::encode_utf8(a), vstd::utf8::encode_utf8(b))
}

/// Whether the items of `list` stand in ascending order.
pub open spec fn sorted(list: Seq<Seq<char>>) -> bool {
    forall|i: int, j: int| 0 <= i < j < list.len() ==> text_le(#[trigger] list[i], #[trigger] list[j])
}

/// Whether `list` lists `items` in order: it is sorted, holds nothing twice,
/// and holds what `items` holds and nothing else.
pub open spec fn lists_in_order(list: Seq<Seq<char>>, items: Seq<Seq<char>>) -> bool {
    &&& sorted(list)
    &&& list.no_duplicates()
    &&& forall|item: Seq<char>| #[trigger] list.contains(item) ==> items.contains(item)
    &&& forall|item: Seq<char>| #[trigger] items.contains(item) ==> list.contains(item)
}

/// What comes before something that comes before a third comes before the
/// third.
pub proof fn lemma_bytes_le_transitive(a: Seq<u8>, b: Seq<u8>, c: Seq<u8>)
    requires
        bytes_le(a, b),
        bytes_le(b, c),
    ensures
        bytes_le(a, c),
{
    let k1 = choose|k: int| #[trigger]
        agree_to(a, b, k) && (k == a.len() || (k < b.len() && a[k] < b[k]));
    let k2 = choose|k: int| #[trigger]
        agree_to(b, c, k) && (k == b.len() || (k < c.len() && b[k] < c[k]));
    let k = if k1 <= k2 {
        k1
    } else {
        k2
    };
    assert(agree_to(a, c, k));
}

/// Whether the text of `a` comes before the text of `b` or is the same.
fn comes_before(a: &str, b: &str) -> (le: bool)
    ensures
        le == text_le(a@, b@),
        !le ==> text_le(b@, a@),
{
    let x = a.as_bytes();
    let y = b.as_bytes();
    let mut i: usize = 0;
    while i < x.len() && i < y.len()
        invariant
            x@ == vstd::utf8::encode_utf8(a@),
            y@ == vstd::utf8::encode_utf8(b@),
            agree_to(x@, y@, i as int),
        decreases x.len() - i,
    {
        if x[i] != y[i] {
            if x[i] < y[i] {
                assert(agree_to(x@, y@, i as int));
                return true;
            } else {
                assert(agree_to(y@, x@, i as int));
                assert forall|k: int| #[trigger] agree_to(x@, y@, k) implies !(k == x@.len() || (k
                    < y@.len() && x@[k] < y@[k])) by {
                    if k > i {
                        assert(x@[i as int] == y@[i as int]);
                    }
                }
                return false;
            }
        }
        i += 1;
    }
    if x.len() <= y.len() {
        assert(agree_to(x@, y@, x@.len() as int));
        true
    } else {
        assert(agree_to(y@, x@, y@.len() as int));
        assert forall|k: int| #[trigger] agree_to(x@, y@, k) implies !(k == x@.len() || (k
            < y@.len() && x@[k] < y@[k])) by {
        }
        false
    }
}

/// Whether `names` holds the text of `name`.
fn contains_name(names: &Vec<String>, name: &str) -> (found: bool)
    ensures
        found == texts(names@).contains(name@),
{
    let wanted = name.to_owned();
    let mut i: usize = 0;
    while i < names.len()
        invariant
            i <= names.len(),
            wanted@ == name@,
            forall|j: int| 0 <= j < i ==> texts(names@)[j] != name@,
        decreases names.len() - i,
    {
        if names[i] == wanted {
            assert(texts(names@)[i as int] == name@);
            return true;
        }
        i += 1;
    }
    false
}

/// Which components should have their output followed on the host's
/// diagnostic stream.
#[derive(Clone, Debug)]
pub enum FollowComponents {
    /// No component is followed.
    Nothing,
    /// The components of these names are followed.
    Named(Vec<String>),
    /// All components are followed.
    All,
}

impl FollowComponents {
    /// Whether the component called `component_id` is followed.
    pub open spec fn follows(&self, component_id: Seq<char>) -> bool {
        match *self {
            FollowComponents::Nothing => false,
            FollowComponents::All => true,
            FollowComponents::Named(names) => texts(names@).contains(component_id),
        }
    }

    /// The names that are selected and that no component in `component_ids`
    /// has, as they are selected.
    pub open spec fn unknown_names(&self, component_ids: Seq<Seq<char>>) -> Seq<Seq<char>> {
        match *self {
            FollowComponents::Named(names) => texts(names@).filter(
                |name: Seq<char>| !component_ids.contains(name),
            ),
            _ => Seq::empty(),
        }
    }

    /// Whether a given component should have its output followed.
    pub fn should_follow(&self, component_id: &str) -> (follow: bool)
        ensures
            follow == self.follows(component_id@),
    {
        match self {
            FollowComponents::Nothing => false,
            FollowComponents::All => true,
            FollowComponents::Named(names) => contains_name(names, component_id),
        }
    }
}

/// The unknown names of a selection are the selected names that no
/// component has.
pub proof fn lemma_unknown_names(names: Vec<String>, component_ids: Seq<Seq<char>>)
    ensures
        forall|name: Seq<char>| #[trigger]
            FollowComponents::Named(names).unknown_names(component_ids).contains(name) ==> texts(
                names@,
            ).contains(name) && !component_ids.contains(name),
        forall|name: Seq<char>|
            texts(names@).contains(name) && !component_ids.contains(name) ==> #[trigger] FollowComponents::Named(
                names,
            ).unknown_names(component_ids).contains(name),
{
    let selected = texts(names@);
    let is_unknown = |name: Seq<char>| !component_ids.contains(name);
    let kept = selected.filter(is_unknown);
    assert forall|name: Seq<char>| #[trigger] kept.contains(name) implies selected.contains(name)
        && !component_ids.contains(name) by {
        let i = choose|i: int| 0 <= i < kept.len() && kept[i] == name;
        selected.lemma_filter_pred(is_unknown, i);
        selected.lemma_filter_contains_rev(is_unknown, name);
    }
    assert forall|name: Seq<char>|
        selected.contains(name) && !component_ids.contains(name) implies #[trigger] kept.contains(
        name,
    ) by {
        let i = choose|i: int| 0 <= i < selected.len() && selected[i] == name;
        selected.lemma_filter_contains(is_unknown, i);
    }
}

impl Default for FollowComponents {
    fn default() -> (selection: Self)
        ensures
            selection is Nothing,
    {
        FollowComponents::Nothing
    }
}

/// `items` as a bulleted list: one line for each item, made of two spaces, a
/// hyphen, a space and the item; a line feed between two lines, none at the
/// end.
pub open spec fn bullet_list_text(items: Seq<Seq<char>>) -> Seq<char>
    decreases items.len(),
{
    if items.len() == 0 {
        Seq::empty()
    } else if items.len() == 1 {
        "  - "@ + items[0]
    } else {
        bullet_list_text(items.drop_last()) + "\n"@ + "  - "@ + items.last()
    }
}

/// The items as a bulleted list.
pub fn bullet_list(items: &Vec<String>) -> (list: String)
    ensures
        list@ == bullet_list_text(texts(items@)),
{
    let mut list = String::new();
    let mut i: usize = 0;
    while i < items.len()
        invariant
            i <= items.len(),
            list@ == bullet_list_text(texts(items@).take(i as int)),
        decreases items.len() - i,
    {
        let ghost before = texts(items@).take(i as int);
        let ghost after = texts(items@).take(i + 1);
        assert(after.drop_last() == before);
        assert(after.last() == items[i as int]@);
        if i > 0 {
            list.append("\n");
        }
        list.append("  - ");
        list.append(items[i].as_str());
        assert(list@ == bullet_list_text(after));
        i += 1;
    }
    assert(texts(items@).take(items.len() as int) == texts(items@));
    list
}

/// Names were selected to be followed that no component of the application
/// has.
#[derive(Debug)]
pub struct FollowError {
    /// The selected names that no component has.
    pub unknown: Vec<String>,
    /// The names of the application's components.
    pub components: Vec<String>,
}

/// The report of a selection with unknown names: the names that are unknown,
/// then the names that exist, each as a bulleted list under its heading.
pub open spec fn follow_error_text(unknown: Seq<Seq<char>>, components: Seq<Seq<char>>) -> Seq<
    char,
> {
    "The following component(s) specified in --follow do not exist in the application:\n"@
        + bullet_list_text(unknown) + "\nThe following components exist:\n"@ + bullet_list_text(
        components,
    )
}

impl FollowError {
    /// The error in words.
    pub fn message(&self) -> (text: String)
        ensures
            text@ == follow_error_text(texts(self.unknown@), texts(self.components@)),
    {
        let mut text = String::new();
        text.append(
            "The following component(s) specified in --follow do not exist in the application:\n",
        );
        let unknown_list = bullet_list(&self.unknown);
        text.append(unknown_list.as_str());
        text.append("\nThe following components exist:\n");
        let actual_list = bullet_list(&self.components);
        text.append(actual_list.as_str());
        text
    }
}

/// Copies of the strings of `strings` in order: sorted, and each text once.
fn sorted_once(strings: &Vec<String>) -> (list: Vec<String>)
    ensures
        lists_in_order(texts(list@), texts(strings@)),
{
    let mut list: Vec<String> = Vec::new();
    let mut i: usize = 0;
    while i < strings.len()
        invariant
            i <= strings.len(),
            lists_in_order(texts(list@), texts(strings@).take(i as int)),
        decreases strings.len() - i,
    {
        let ghost seen = texts(strings@).take(i as int);
        let ghost next = texts(strings@).take(i + 1);
        let ghost item = strings[i as int]@;
        let ghost before = texts(list@);
        assert(next == seen.push(item));
        assert forall|other: Seq<char>| next.contains(other) <==> seen.contains(other) || other
            == item by {
            if next.contains(other) {
                let j = choose|j: int| 0 <= j < next.len() && next[j] == other;
                if j < i {
                    assert(seen[j] == other);
                }
            }
            if seen.contains(other) {
                let j = choose|j: int| 0 <= j < seen.len() && seen[j] == other;
                assert(next[j] == other);
            }
            assert(next[i as int] == item);
        }
        if !contains_name(&list, strings[i].as_str()) {
            let mut p: usize = 0;
            while p < list.len() && comes_before(list[p].as_str(), strings[i].as_str())
                invariant
                    p <= list.len(),
                    i < strings.len(),
                    item == strings[i as int]@,
                    before == texts(list@),
                    forall|q: int| 0 <= q < p ==> text_le(#[trigger] before[q], item),
                decreases list.len() - p,
            {
                p += 1;
            }
            list.insert(p, strings[i].clone());
            let ghost after = texts(list@);
            assert(after =~= before.insert(p as int, item));
            assert forall|a: int, b: int| 0 <= a < b < after.len() implies text_le(
                #[trigger] after[a],
                #[trigger] after[b],
            ) by {
                if b < p {
                    assert(after[a] == before[a] && after[b] == before[b]);
                } else if b == p {
                    assert(after[a] == before[a]);
                } else if a == p {
                    assert(after[b] == before[b - 1]);
                    assert(text_le(item, before[p as int]));
                    if b - 1 > p {
                        assert(text_le(before[p as int], before[b - 1]));
                        lemma_bytes_le_transitive(
                            vstd::utf8::encode_utf8(item),
                            vstd::utf8::encode_utf8(before[p as int]),
                            vstd::utf8::encode_utf8(before[b - 1]),
                        );
                    }
                } else if a < p {
                    assert(after[a] == before[a] && after[b] == before[b - 1]);
                } else {
                    assert(after[a] == before[a - 1] && after[b] == before[b - 1]);
                }
            }
            assert forall|a: int, b: int|
                0 <= a < after.len() && 0 <= b < after.len() && a != b implies after[a]
                != after[b] by {
                let from = |at: int| if at < p { at } else { at - 1 };
                if a != p {
                    assert(after[a] == before[from(a)]);
                    assert(before.contains(before[from(a)]));
                }
                if b != p {
                    assert(after[b] == before[from(b)]);
                    assert(before.contains(before[from(b)]));
                }
            }
            assert forall|other: Seq<char>| #[trigger] after.contains(other) implies next.contains(
                other,
            ) by {
                let j = choose|j: int| 0 <= j < after.len() && after[j] == other;
                if j < p {
                    assert(before[j] == other);
                    assert(before.contains(other));
                } else if j > p {
                    assert(before[j - 1] == other);
                    assert(before.contains(other));
                }
            }
            assert forall|other: Seq<char>| #[trigger] next.contains(other) implies after.contains(
                other,
            ) by {
                if other == item {
                    assert(after[p as int] == other);
                } else {
                    assert(seen.contains(other));
                    assert(before.contains(other));
                    let j = choose|j: int| 0 <= j < before.len() && before[j] == other;
                    if j < p {
                        assert(after[j] == other);
                    } else {
                        assert(after[j + 1] == other);
                    }
                }
            }
        } else {
            assert forall|other: Seq<char>| #[trigger] next.contains(other) implies before.contains(
                other,
            ) by {
                if other != item {
                    assert(seen.contains(other));
                }
            }
            assert forall|other: Seq<char>| #[trigger] before.contains(other) implies next.contains(
                other,
            ) by {
                assert(seen.contains(other));
            }
        }
        i += 1;
    }
    assert(texts(strings@).take(strings.len() as int) == texts(strings@));
    list
}

/// Checks a selection against the names of an application's components:
/// every selected name must be the name of a component. The error lists the
/// selected names that are not, and all the names that are.
fn check_selection(follow_components: &FollowComponents, component_ids: &Vec<String>) -> (checked:
    Result<(), FollowError>)
    ensures
        match checked {
            Ok(()) => follow_components.unknown_names(texts(component_ids@)).len() == 0,
            Err(error) => {
                &&& follow_components.unknown_names(texts(component_ids@)).len() > 0
                &&& lists_in_order(
                    texts(error.unknown@),
                    follow_components.unknown_names(texts(component_ids@)),
                )
                &&& lists_in_order(texts(error.components@), texts(component_ids@))
            },
        },
{
    match follow_components {
        FollowComponents::Named(names) => {
            let ghost known = texts(component_ids@);
            let ghost is_unknown = |name: Seq<char>| !known.contains(name);
            let mut unknown: Vec<String> = Vec::new();
            let mut i: usize = 0;
            while i < names.len()
                invariant
                    i <= names.len(),
                    known == texts(component_ids@),
                    is_unknown == |name: Seq<char>| !known.contains(name),
                    texts(unknown@) == texts(names@).take(i as int).filter(is_unknown),
                decreases names.len() - i,
            {
                let ghost before = texts(names@).take(i as int);
                let ghost listed = texts(unknown@);
                proof {
                    assert(texts(names@).take(i + 1) == before.push(names[i as int]@));
                    before.lemma_filter_push(names[i as int]@, is_unknown);
                }
                if !contains_name(component_ids, names[i].as_str()) {
                    unknown.push(names[i].clone());
                    assert(texts(unknown@) =~= listed.push(names[i as int]@));
                }
                i += 1;
            }
            assert(texts(names@).take(names.len() as int) == texts(names@));
            if unknown.len() == 0 {
                Ok(())
            } else {
                Err(
                    FollowError {
                        unknown: sorted_once(&unknown),
                        components: sorted_once(component_ids),
                    },
                )
            }
        },
        _ => Ok(()),
    }
}

/// A directory or a file in the file system.
#[verifier::external_type_specification]
#[verifier::external_body]
pub struct ExPathBuf(PathBuf);

/// Whether a file's name may hold `c`: it is no separator of paths, none of
/// `? < > : * | "`, and no control character.
pub open spec fn fit_for_file_name(c: char) -> bool {
    &&& c != '/' && c != '\\'
    &&& c != '?' && c != '<' && c != '>' && c != ':' && c != '*' && c != '|' && c != '"'
    &&& c as u32 > 0x1f
    &&& !(0x80 <= c as u32 <= 0x9f)
}

/// Whether a file's name may hold every character of `text`.
pub open spec fn all_fit_for_file_name(text: Seq<char>) -> bool {
    forall|i: int| 0 <= i < text.len() ==> fit_for_file_name(#[trigger] text[i])
}

/// What `sanitize_filename` makes of `name` so that it can be a file's name;
/// `windows` says whether the rules of Windows count too.
pub uninterp spec fn sanitized(name: Seq<char>, windows: bool) -> Seq<char>;

/// `sanitize_filename::sanitize_with_options`, which cuts the result to 255
/// bytes and puts nothing in the place of what it removes: `name` without
/// what a file's name may not hold. Claimed beside the name: the result
/// holds no character that the function removes wherever it stands, which
/// are the separators of paths, `? < > : * | "` and the control characters.
#[verifier::external_body]
fn sanitize(name: &str, windows: bool) -> (clean: String)
    ensures
        clean@ == sanitized(name@, windows),
        all_fit_for_file_name(clean@),
{
    let options = sanitize_filename::Options { windows, truncate: true, replacement: "" };
    sanitize_filename::sanitize_with_options(name, options)
}

/// The name of the log file of a stream: the component's name made fit for a
/// file's name, an underscore, the stream's suffix, and `.txt`.
pub open spec fn log_file_name_text(sanitized_id: Seq<char>, log_suffix: Seq<char>) -> Seq<char> {
    sanitized_id + "_"@ + log_suffix + ".txt"@
}

/// The name of a log file, from a component's name that is fit for a file's
/// name already.
pub fn log_file_name_of(sanitized_id: &str, log_suffix: &str) -> (name: String)
    ensures
        name@ == log_file_name_text(sanitized_id@, log_suffix@),
{
    let mut name = sanitized_id.to_owned();
    name.append("_");
    name.append(log_suffix);
    name.append(".txt");
    name
}

/// The name of the log file of the stream `log_suffix` of the component
/// `component_id`.
pub fn log_file_name(component_id: &str, log_suffix: &str, windows: bool) -> (name: String)
    ensures
        name@ == log_file_name_text(sanitized(component_id@, windows), log_suffix@),
        all_fit_for_file_name(sanitized(component_id@, windows)),
        all_fit_for_file_name(log_suffix@) ==> all_fit_for_file_name(name@),
{
    proof {
        reveal_strlit("_");
        reveal_strlit(".txt");
    }
    let sanitized_component_id = sanitize(component_id, windows);
    log_file_name_of(sanitized_component_id.as_str(), log_suffix)
}

/// Where a writer stands in the write that is under way.
#[derive(Clone, Copy, Debug, PartialEq, Eq, Structural)]
pub enum ComponentStdioWriterState {
    /// The labelled output goes to the log file, which has taken its first
    /// `written` bytes.
    File { written: usize },
    /// The log file has taken all of the labelled output; its bytes from
    /// `start` to `end` are still to go to the diagnostic stream.
    Follow { start: usize, end: usize },
}

/// One of the two places to which a writer sends output.
#[derive(Clone, Copy, Debug, PartialEq, Eq, Structural)]
pub enum StdioSink {
    /// The component's log file.
    File,
    /// The host's diagnostic stream.
    Follow,
}

/// The next piece of work in a write: the bytes of the labelled output from
/// `start` to `end` go to `sink`.
#[derive(Clone, Copy, Debug, PartialEq, Eq, Structural)]
pub struct PendingWrite {
    pub sink: StdioSink,
    pub start: usize,
    pub end: usize,
}

/// The sinks that a flush or a shutdown concerns.
#[derive(Clone, Copy, Debug, PartialEq, Eq, Structural)]
pub struct Sinks {
    pub file: bool,
    pub follow: bool,
}

/// The label that is put before each piece of a component's output: the
/// component's name in square brackets and a space, as bytes.
pub open spec fn label(component_id: Seq<char>) -> Seq<u8> {
    vstd::utf8::encode_utf8("["@ + component_id + "] "@)
}

/// A piece of output with the component's label before it.
pub open spec fn labelled(component_id: Seq<char>, output: Seq<u8>) -> Seq<u8> {
    label(component_id) + output
}

/// What is to be written next in a write of `len` labelled bytes: the rest
/// for the log file, or, once the log file has all, the rest for the
/// diagnostic stream.
pub open spec fn pending(state: ComponentStdioWriterState, len: int) -> PendingWrite {
    match state {
        ComponentStdioWriterState::File { written } => PendingWrite {
            sink: StdioSink::File,
            start: written,
            end: len as usize,
        },
        ComponentStdioWriterState::Follow { start, end } => PendingWrite {
            sink: StdioSink::Follow,
            start,
            end,
        },
    }
}

/// The state after a sink has taken `accepted` more bytes of a labelled
/// output of `len` bytes. The log file comes first and takes all of it; then,
/// for a followed component, the diagnostic stream takes all of it; then the
/// writer is ready for the next write.
pub open spec fn state_after(
    state: ComponentStdioWriterState,
    follow: bool,
    len: int,
    accepted: int,
) -> ComponentStdioWriterState {
    match state {
        ComponentStdioWriterState::File { written } => if accepted < len - written {
            ComponentStdioWriterState::File { written: (written + accepted) as usize }
        } else if follow {
            ComponentStdioWriterState::Follow { start: 0, end: len as usize }
        } else {
            ComponentStdioWriterState::File { written: 0 }
        },
        ComponentStdioWriterState::Follow { start, end } => if accepted < end - start {
            ComponentStdioWriterState::Follow { start: (start + accepted) as usize, end }
        } else {
            ComponentStdioWriterState::File { written: 0 }
        },
    }
}

/// Whether the write is complete once a sink has taken `accepted` more bytes:
/// the last sink that the write concerns has then taken all.
pub open spec fn completes(
    state: ComponentStdioWriterState,
    follow: bool,
    len: int,
    accepted: int,
) -> bool {
    match state {
        ComponentStdioWriterState::File { written } => accepted >= len - written && !follow,
        ComponentStdioWriterState::Follow { start, end } => accepted >= end - start,
    }
}

/// Sends the output of one stream of a component to the component's log
/// file and, where the component is followed, to the diagnostic stream too.
/// The writer decides what is written where and when a write is complete;
/// the caller owns the sinks and does the writing.
#[derive(Debug)]
pub struct ComponentStdioWriter {
    state: ComponentStdioWriterState,
    follow: bool,
    component_id: String,
}

impl ComponentStdioWriter {
    pub closed spec fn state(&self) -> ComponentStdioWriterState {
        self.state
    }

    pub closed spec fn follow(&self) -> bool {
        self.follow
    }

    pub closed spec fn component_id(&self) -> Seq<char> {
        self.component_id@
    }

    /// Whether the writer's state belongs to a write of `len` labelled
    /// bytes: between writes it does to any; within a write, to that write
    /// alone.
    pub open spec fn fits(&self, len: int) -> bool {
        state_fits(self.state(), len)
    }

    /// A writer for the component `component_id`, with no write under way.
    pub fn new(follow: bool, component_id: String) -> (writer: Self)
        ensures
            writer.state() == (ComponentStdioWriterState::File { written: 0 }),
            writer.follow() == follow,
            writer.component_id() == component_id@,
    {
        ComponentStdioWriter {
            state: ComponentStdioWriterState::File { written: 0 },
            follow,
            component_id,
        }
    }

    /// Whether the component's output goes to the diagnostic stream too.
    pub fn is_followed(&self) -> (follow: bool)
        ensures
            follow == self.follow(),
    {
        self.follow
    }

    /// Whether the writer's state belongs to a write of `len` labelled bytes.
    pub fn is_fit(&self, len: usize) -> (fit: bool)
        ensures
            fit == self.fits(len as int),
    {
        match self.state {
            ComponentStdioWriterState::File { written } => written == 0 || written < len,
            ComponentStdioWriterState::Follow { start, end } => start <= end && end <= len,
        }
    }

    /// The output `buf` with the component's label before it: what a write
    /// of `buf` sends to the sinks.
    pub fn prefixed(&self, buf: &[u8]) -> (out: Vec<u8>)
        ensures
            out@ == labelled(self.component_id(), buf@),
    {
        let mut text = String::new();
        text.append("[");
        text.append(self.component_id.as_str());
        text.append("] ");
        let mut out = text.as_str().as_bytes_vec();
        out.extend_from_slice(buf);
        out
    }

    /// What is to be written next in a write of `len` labelled bytes: the
    /// rest for the log file, or, once the log file has all, the rest for
    /// the diagnostic stream.
    pub fn poll_write(&self, len: usize) -> (next: PendingWrite)
        requires
            self.fits(len as int),
        ensures
            next.start <= next.end <= len,
            next == pending(self.state(), len as int),
    {
        match self.state {
            ComponentStdioWriterState::File { written } => PendingWrite {
                sink: StdioSink::File,
                start: written,
                end: len,
            },
            ComponentStdioWriterState::Follow { start, end } => PendingWrite {
                sink: StdioSink::Follow,
                start,
                end,
            },
        }
    }

    /// Takes note that the sink of the pending write has taken `accepted`
    /// bytes, in a write of `len` labelled bytes made of `buf_len` bytes of
    /// output. Returns the count to report to the guest once the write is
    /// complete, which is all of the output; until then, `None`.
    pub fn written(&mut self, len: usize, buf_len: usize, accepted: usize) -> (done: Option<usize>)
        requires
            old(self).fits(len as int),
        ensures
            final(self).fits(len as int),
            final(self).follow() == old(self).follow(),
            final(self).component_id() == old(self).component_id(),
            final(self).state() == state_after(
                old(self).state(),
                old(self).follow(),
                len as int,
                accepted as int,
            ),
            done == if completes(old(self).state(), old(self).follow(), len as int, accepted as int) {
                Some(buf_len)
            } else {
                None
            },
    {
        match self.state {
            ComponentStdioWriterState::File { written } => {
                if written >= len || accepted >= len - written {
                    if self.follow {
                        self.state = ComponentStdioWriterState::Follow { start: 0, end: len };
                        None
                    } else {
                        self.state = ComponentStdioWriterState::File { written: 0 };
                        Some(buf_len)
                    }
                } else {
                    self.state = ComponentStdioWriterState::File { written: written + accepted };
                    None
                }
            },
            ComponentStdioWriterState::Follow { start, end } => {
                if accepted >= end - start {
                    self.state = ComponentStdioWriterState::File { written: 0 };
                    Some(buf_len)
                } else {
                    self.state = ComponentStdioWriterState::Follow { start: start + accepted, end };
                    None
                }
            },
        }
    }

    /// The sinks to flush: the one that the writer is writing to, and the
    /// diagnostic stream whenever the component is followed.
    pub fn poll_flush(&self) -> (sinks: Sinks)
        ensures
            sinks.file == (self.state() is File),
            sinks.follow == (self.state() is Follow || self.follow()),
    {
        match self.state {
            ComponentStdioWriterState::File { .. } => Sinks { file: true, follow: self.follow },
            ComponentStdioWriterState::Follow { .. } => Sinks { file: false, follow: true },
        }
    }

    /// The sinks that a shutdown concerns: the log file is closed where the
    /// writer is writing to it, and the diagnostic stream, which stays open,
    /// is flushed where the writer is writing to it or the component is
    /// followed.
    pub fn poll_shutdown(&self) -> (sinks: Sinks)
        ensures
            sinks.file == (self.state() is File),
            sinks.follow == (self.state() is Follow || self.follow()),
    {
        self.poll_flush()
    }
}

/// The log of one stream of a component: the name of its file in the log
/// directory, and the writer that sends the stream there.
#[derive(Debug)]
pub struct ComponentLog {
    pub file_name: String,
    pub writer: ComponentStdioWriter,
}

/// Where the two output streams of a component go.
#[derive(Debug)]
pub enum ComponentStdio {
    /// To the host's own streams, unchanged.
    Inherit,
    /// Into log files.
    Logged { stdout: ComponentLog, stderr: ComponentLog },
}

/// Sends the output of the components of an application to log files and,
/// for the components that are followed, to the diagnostic stream.
#[derive(Debug)]
pub struct StdioLoggingTriggerHooks {
    follow_components: FollowComponents,
    log_dir: Option<PathBuf>,
    windows_names: bool,
}

impl StdioLoggingTriggerHooks {
    /// The components that are followed.
    pub closed spec fn follow_components(&self) -> FollowComponents {
        self.follow_components
    }

    /// The directory of the log files, once the application is loaded and
    /// where it has one.
    pub closed spec fn log_dir(&self) -> Option<PathBuf> {
        self.log_dir
    }

    /// Whether the names of the log files keep to the rules of Windows too.
    pub closed spec fn windows_names(&self) -> bool {
        self.windows_names
    }

    /// Hooks that follow `follow_components`, with no log directory yet.
    pub fn new(follow_components: FollowComponents) -> (hooks: Self)
        ensures
            hooks.follow_components() == follow_components,
            hooks.log_dir() is None,
            !hooks.windows_names(),
    {
        StdioLoggingTriggerHooks { follow_components, log_dir: None, windows_names: false }
    }

    /// The same hooks, whose log files are named by the rules of Windows too
    /// if `windows_names` says so.
    pub fn with_windows_names(self, windows_names: bool) -> (hooks: Self)
        ensures
            hooks.follow_components() == self.follow_components(),
            hooks.log_dir() == self.log_dir(),
            hooks.windows_names() == windows_names,
    {
        StdioLoggingTriggerHooks {
            follow_components: self.follow_components,
            log_dir: self.log_dir,
            windows_names,
        }
    }

    /// The directory of the log files, if there is one.
    pub fn log_directory(&self) -> (dir: Option<&PathBuf>)
        ensures
            dir == match self.log_dir() {
                Some(path) => Some(&path),
                None => None,
            },
    {
        self.log_dir.as_ref()
    }

    /// The writer and the name of the log file for the stream `log_suffix`
    /// of the component `component_id`. The file lies in the log directory.
    pub fn component_stdio_writer(&self, component_id: &str, log_suffix: &str) -> (log: ComponentLog)
        ensures
            log.file_name@ == log_file_name_text(
                sanitized(component_id@, self.windows_names()),
                log_suffix@,
            ),
            all_fit_for_file_name(log_suffix@) ==> all_fit_for_file_name(log.file_name@),
            log.writer.state() == (ComponentStdioWriterState::File { written: 0 }),
            log.writer.follow() == self.follow_components().follows(component_id@),
            log.writer.component_id() == component_id@,
    {
        let file_name = log_file_name(component_id, log_suffix, self.windows_names);
        let follow = self.follow_components.should_follow(component_id);
        ComponentLog { file_name, writer: ComponentStdioWriter::new(follow, component_id.to_owned()) }
    }

    /// Checks the selection of followed components against the names of the
    /// application's components: every selected name must be the name of a
    /// component. The error lists the selected names that are not, and all
    /// the names that are.
    pub fn validate_follows(&self, component_ids: &Vec<String>) -> (checked: Result<(), FollowError>)
        ensures
            match checked {
                Ok(()) => self.follow_components().unknown_names(texts(component_ids@)).len() == 0,
                Err(error) => {
                    &&& self.follow_components().unknown_names(texts(component_ids@)).len() > 0
                    &&& lists_in_order(
                        texts(error.unknown@),
                        self.follow_components().unknown_names(texts(component_ids@)),
                    )
                    &&& lists_in_order(texts(error.components@), texts(component_ids@))
                },
            },
    {
        check_selection(&self.follow_components, component_ids)
    }

    /// Called when the application is loaded: takes `log_dir` as the
    /// directory of the log files, then checks the selection of followed
    /// components against `component_ids`, the names of the application's
    /// components.
    pub fn app_loaded(&mut self, component_ids: &Vec<String>, log_dir: Option<PathBuf>) -> (loaded:
        Result<(), FollowError>)
        ensures
            final(self).log_dir() == log_dir,
            final(self).follow_components() == old(self).follow_components(),
            final(self).windows_names() == old(self).windows_names(),
            match loaded {
                Ok(()) => old(self).follow_components().unknown_names(texts(component_ids@)).len()
                    == 0,
                Err(error) => {
                    &&& old(self).follow_components().unknown_names(texts(component_ids@)).len() > 0
                    &&& lists_in_order(
                        texts(error.unknown@),
                        old(self).follow_components().unknown_names(texts(component_ids@)),
                    )
                    &&& lists_in_order(texts(error.components@), texts(component_ids@))
                },
            },
    {
        self.log_dir = log_dir;
        self.validate_follows(component_ids)
    }

    /// Where the output streams of the component `component_id` go: into
    /// two files of the log directory, one for each stream, or, without a
    /// log directory, to the host's own streams. The names of the files hold
    /// nothing that a file's name may not hold, so each names a file in the
    /// log directory itself.
    pub fn component_store_builder(&self, component_id: &str) -> (stdio: ComponentStdio)
        ensures
            self.log_dir() is None <==> stdio is Inherit,
            stdio matches ComponentStdio::Logged { stdout, stderr } ==> {
                &&& stdout.file_name@ == log_file_name_text(
                    sanitized(component_id@, self.windows_names()),
                    "stdout"@,
                )
                &&& stderr.file_name@ == log_file_name_text(
                    sanitized(component_id@, self.windows_names()),
                    "stderr"@,
                )
                &&& stdout.writer.state() == (ComponentStdioWriterState::File { written: 0 })
                &&& stderr.writer.state() == (ComponentStdioWriterState::File { written: 0 })
                &&& stdout.writer.follow() == self.follow_components().follows(component_id@)
                &&& stderr.writer.follow() == self.follow_components().follows(component_id@)
                &&& stdout.writer.component_id() == component_id@
                &&& stderr.writer.component_id() == component_id@
                &&& all_fit_for_file_name(stdout.file_name@)
                &&& all_fit_for_file_name(stderr.file_name@)
            },
    {
        proof {
            reveal_strlit("stdout");
            reveal_strlit("stderr");
        }
        match &self.log_dir {
            Some(_) => ComponentStdio::Logged {
                stdout: self.component_stdio_writer(component_id, "stdout"),
                stderr: self.component_stdio_writer(component_id, "stderr"),
            },
            None => ComponentStdio::Inherit,
        }
    }
}

/// The bytes that reach `sink` in the rest of a write, where the labelled
/// output is `payload`, the writer is in `state`, and the sinks take
/// `accepted[0]` bytes of the first pending write, `accepted[1]` of the next,
/// and so on until the write is complete or `accepted` ends.
pub open spec fn sent(
    state: ComponentStdioWriterState,
    follow: bool,
    payload: Seq<u8>,
    accepted: Seq<int>,
    sink: StdioSink,
) -> Seq<u8>
    decreases accepted.len(),
{
    if accepted.len() == 0 {
        Seq::empty()
    } else {
        let len = payload.len() as int;
        let next = pending(state, len);
        let piece = if next.sink == sink {
            payload.subrange(next.start as int, next.start + accepted[0])
        } else {
            Seq::empty()
        };
        if completes(state, follow, len, accepted[0]) {
            piece
        } else {
            piece + sent(
                state_after(state, follow, len, accepted[0]),
                follow,
                payload,
                accepted.drop_first(),
                sink,
            )
        }
    }
}

/// Whether the write is complete with the last of `accepted` and not before,
/// each sink taking no more than it is offered.
pub open spec fn finishes(
    state: ComponentStdioWriterState,
    follow: bool,
    len: int,
    accepted: Seq<int>,
) -> bool
    decreases accepted.len(),
{
    if accepted.len() == 0 {
        false
    } else {
        let next = pending(state, len);
        &&& 0 <= accepted[0] <= next.end - next.start
        &&& if completes(state, follow, len, accepted[0]) {
            accepted.len() == 1
        } else {
            finishes(state_after(state, follow, len, accepted[0]), follow, len, accepted.drop_first())
        }
    }
}

/// Whether `state` belongs to a write of `len` labelled bytes.
pub open spec fn state_fits(state: ComponentStdioWriterState, len: int) -> bool {
    match state {
        ComponentStdioWriterState::File { written } => written == 0 || written < len,
        ComponentStdioWriterState::Follow { start, end } => start <= end <= len,
    }
}

/// From any state of a write, what the sinks still get is what they lack:
/// the log file the rest of the labelled output, and the diagnostic stream,
/// where the component is followed, all of it or the rest of it.
pub proof fn lemma_rest_of_write(
    state: ComponentStdioWriterState,
    follow: bool,
    payload: Seq<u8>,
    accepted: Seq<int>,
)
    requires
        payload.len() <= usize::MAX,
        state_fits(state, payload.len() as int),
        state matches ComponentStdioWriterState::Follow { start, end } ==> follow && end
            == payload.len(),
        finishes(state, follow, payload.len() as int, accepted),
    ensures
        sent(state, follow, payload, accepted, StdioSink::File) == match state {
            ComponentStdioWriterState::File { written } => payload.subrange(
                written as int,
                payload.len() as int,
            ),
            ComponentStdioWriterState::Follow { .. } => Seq::empty(),
        },
        sent(state, follow, payload, accepted, StdioSink::Follow) == match state {
            ComponentStdioWriterState::File { .. } => if follow {
                payload
            } else {
                Seq::empty()
            },
            ComponentStdioWriterState::Follow { start, .. } => payload.subrange(
                start as int,
                payload.len() as int,
            ),
        },
    decreases accepted.len(),
{
    let len = payload.len() as int;
    let next = pending(state, len);
    let after = state_after(state, follow, len, accepted[0]);
    if !completes(state, follow, len, accepted[0]) {
        lemma_rest_of_write(after, follow, payload, accepted.drop_first());
    }
    let file = sent(state, follow, payload, accepted, StdioSink::File);
    let stream = sent(state, follow, payload, accepted, StdioSink::Follow);
    match state {
        ComponentStdioWriterState::File { written } => {
            assert(file =~= payload.subrange(written as int, len));
            assert(stream =~= if follow {
                payload
            } else {
                Seq::empty()
            });
        },
        ComponentStdioWriterState::Follow { start, end } => {
            assert(file =~= Seq::<u8>::empty());
            assert(stream =~= payload.subrange(start as int, len));
        },
    }
}

/// A write that completes has sent the labelled output to the log file, all
/// of it and once, and likewise to the diagnostic stream where the component
/// is followed, and nothing to the stream where it is not: however the sinks
/// divide the output among their partial writes.
pub proof fn lemma_write_sends_all_once(follow: bool, payload: Seq<u8>, accepted: Seq<int>)
    requires
        payload.len() <= usize::MAX,
        finishes(ComponentStdioWriterState::File { written: 0 }, follow, payload.len() as int, accepted),
    ensures
        sent(ComponentStdioWriterState::File { written: 0 }, follow, payload, accepted, StdioSink::File)
            == payload,
        sent(
            ComponentStdioWriterState::File { written: 0 },
            follow,
            payload,
            accepted,
            StdioSink::Follow,
        ) == if follow {
            payload
        } else {
            Seq::empty()
        },
{
    lemma_rest_of_write(ComponentStdioWriterState::File { written: 0 }, follow, payload, accepted);
    assert(payload.subrange(0, payload.len() as int) =~= payload);
}

} // verus!
