//! The message of the day of a new session.
//!
//! Sessions start outside of the login stack that usually shows these files,
//! so the terminal shows them itself before the shell starts. What the files
//! hold is handed in; this module decides what is shown of it.
use vstd::prelude::*;
use vstd::slice::slice_subrange;

use crate::bytes::bytes_of;
use crate::name_map::NameMap;

verus! {

/// Largest output chunk per packet.
pub const MAX_OUTPUT_CHUNK: usize = 16384;

/// How much of one message is shown.
pub const MAX_MOTD_MESSAGE: usize = 65536;

/// How much is shown of all messages together.
pub const MAX_MOTD_TOTAL: usize = 262144;

/// How many names of the message directories are looked at.
pub const MAX_MOTD_ENTRIES: usize = 1024;

// One message.

/// A line feed that no carriage return precedes gets one; every other byte
/// stays as it is.
pub open spec fn rendered_byte(previous: u8, byte: u8) -> Seq<u8> {
    if byte == 10 && previous != 13 {
        seq![13u8, 10u8]
    } else {
        seq![byte]
    }
}

/// The byte before the end of a text, or zero.
pub open spec fn last_byte(s: Seq<u8>) -> u8 {
    if s.len() == 0 {
        0
    } else {
        s.last()
    }
}

/// A text as a terminal in raw mode needs it.
pub open spec fn rendered(s: Seq<u8>) -> Seq<u8>
    decreases s.len(),
{
    if s.len() == 0 {
        Seq::empty()
    } else {
        rendered(s.drop_last()) + rendered_byte(last_byte(s.drop_last()), s.last())
    }
}

/// How many bytes of a text still fit behind so many others. Room for a line
/// end is kept.
pub open spec fn fitting(shown: nat, s: Seq<u8>) -> int
    decreases s.len(),
{
    if s.len() == 0 {
        0
    } else if shown + rendered(s).len() <= MAX_MOTD_TOTAL - 2 {
        s.len() as int
    } else {
        fitting(shown, s.drop_last())
    }
}

/// A message without the line end that closes it.
pub open spec fn unterminated(s: Seq<u8>) -> Seq<u8> {
    if s.len() >= 2 && s.last() == 10 && s[s.len() - 2] == 13 {
        s.take(s.len() - 2)
    } else if s.len() >= 1 && s.last() == 10 {
        s.drop_last()
    } else {
        s
    }
}

/// Output with a line end, where it fits.
pub open spec fn ended(output: Seq<u8>) -> Seq<u8> {
    if output.len() + 2 <= MAX_MOTD_TOTAL {
        output + seq![13u8, 10u8]
    } else {
        output
    }
}

/// Output with a message behind it. An empty message adds nothing, and every
/// other one ends its line.
pub open spec fn appended(output: Seq<u8>, message: Seq<u8>) -> Seq<u8> {
    if message.len() == 0 {
        output
    } else {
        let body = unterminated(message);
        ended(output + rendered(body.take(fitting(output.len(), body))))
    }
}

proof fn lemma_rendered_grows(s: Seq<u8>, n: int)
    requires
        0 <= n <= s.len(),
    ensures
        rendered(s.take(n)).len() <= rendered(s).len(),
    decreases s.len(),
{
    if n == s.len() {
        assert(s.take(n) =~= s);
    } else {
        assert(s.drop_last().take(n) =~= s.take(n));
        lemma_rendered_grows(s.drop_last(), n);
    }
}

/// When `n` bytes fit and one more does not, `n` is what fits.
proof fn lemma_fitting(shown: nat, s: Seq<u8>, n: int)
    requires
        0 <= n <= s.len(),
        n > 0 ==> shown + rendered(s.take(n)).len() <= MAX_MOTD_TOTAL - 2,
        n < s.len() ==> shown + rendered(s.take(n + 1)).len() > MAX_MOTD_TOTAL - 2,
    ensures
        fitting(shown, s) == n,
    decreases s.len(),
{
    if n == s.len() {
        assert(s.take(n) =~= s);
    } else {
        lemma_rendered_grows(s, n + 1);
        assert(s.drop_last().take(n) =~= s.take(n));
        if n < s.drop_last().len() {
            assert(s.drop_last().take(n + 1) =~= s.take(n + 1));
        }
        lemma_fitting(shown, s.drop_last(), n);
    }
}

fn without_line_end(bytes: &[u8]) -> (body: &[u8])
    ensures
        body@ == unterminated(bytes@),
{
    let len: usize = bytes.len();
    if len >= 2 && bytes[len - 1] == 10 && bytes[len - 2] == 13 {
        let body = slice_subrange(bytes, 0, len - 2);
        assert(body@ =~= bytes@.take(len - 2));
        body
    } else if len >= 1 && bytes[len - 1] == 10 {
        let body = slice_subrange(bytes, 0, len - 1);
        assert(body@ =~= bytes@.drop_last());
        body
    } else {
        bytes
    }
}

/// Preserve existing CRLF and make lone LF render from column zero.
pub fn append_terminal_bytes(output: &mut Vec<u8>, bytes: &[u8])
    ensures
        final(output)@ == appended(old(output)@, bytes@),
        old(output)@.len() <= MAX_MOTD_TOTAL ==> final(output)@.len() <= MAX_MOTD_TOTAL,
{
    if bytes.len() == 0 {
        return;
    }
    let body = without_line_end(bytes);
    let ghost start = output@;
    let limit: usize = MAX_MOTD_TOTAL - 2;
    let mut previous: u8 = 0;
    let mut i: usize = 0;
    assert(body@.take(0) =~= Seq::empty());
    assert(start + rendered(body@.take(0)) =~= start);
    while i < body.len()
        invariant_except_break
            limit == MAX_MOTD_TOTAL - 2,
            i <= body@.len(),
            output@ == start + rendered(body@.take(i as int)),
            i > 0 ==> output@.len() <= limit,
            previous == last_byte(body@.take(i as int)),
        ensures
            i <= body@.len(),
            output@ == start + rendered(body@.take(i as int)),
            i > 0 ==> output@.len() <= limit,
            i < body@.len() ==> start.len() + rendered(body@.take(i + 1)).len() > limit,
        decreases body@.len() - i,
    {
        let byte = body[i];
        proof {
            assert(body@.take(i + 1).drop_last() =~= body@.take(i as int));
            assert(body@.take(i + 1).last() == byte);
        }
        let shown: usize = output.len();
        if byte == 10 && previous != 13 {
            if shown > limit - 2 {
                break;
            }
            output.push(13);
        } else if shown >= limit {
            break;
        }
        output.push(byte);
        assert(output@ =~= start + rendered(body@.take(i + 1)));
        previous = byte;
        i += 1;
    }
    proof {
        lemma_fitting(start.len(), body@, i as int);
    }
    let shown: usize = output.len();
    if shown <= MAX_MOTD_TOTAL - 2 {
        let ghost before = output@;
        output.push(13);
        output.push(10);
        assert(output@ =~= before + seq![13u8, 10u8]);
    }
}

/// As much of a file as is shown.
pub fn bounded_message(bytes: Vec<u8>) -> (message: Vec<u8>)
    ensures
        message@ == if bytes@.len() > MAX_MOTD_MESSAGE {
            bytes@.take(MAX_MOTD_MESSAGE as int)
        } else {
            bytes@
        },
{
    let mut message = bytes;
    if message.len() > MAX_MOTD_MESSAGE {
        message.truncate(MAX_MOTD_MESSAGE);
    }
    message
}

// Several messages.

/// What became of an attempt to read a file.
#[derive(Debug)]
pub enum FileMessage {
    Unreadable,
    /// It was opened, and is no regular file.
    NotRegular,
    Message(Vec<u8>),
}

/// The contents of a [`FileMessage`].
pub enum MessageModel {
    Unreadable,
    NotRegular,
    Message(Seq<u8>),
}

impl DeepView for FileMessage {
    type V = MessageModel;

    open spec fn deep_view(&self) -> MessageModel {
        match self {
            FileMessage::Unreadable => MessageModel::Unreadable,
            FileMessage::NotRegular => MessageModel::NotRegular,
            FileMessage::Message(bytes) => MessageModel::Message(bytes@),
        }
    }
}

/// The first file of a list that holds a message.
pub open spec fn first_message(files: Seq<MessageModel>) -> Option<Seq<u8>>
    decreases files.len(),
{
    if files.len() == 0 {
        None
    } else {
        match first_message(files.drop_last()) {
            Some(message) => Some(message),
            None => match files.last() {
                MessageModel::Message(bytes) => Some(bytes),
                _ => None,
            },
        }
    }
}

/// The first file of a list that can be opened. One that is no regular file
/// silences those behind it.
pub open spec fn first_opened(files: Seq<MessageModel>) -> Option<MessageModel>
    decreases files.len(),
{
    if files.len() == 0 {
        None
    } else {
        match first_opened(files.drop_last()) {
            Some(opened) => Some(opened),
            None => match files.last() {
                MessageModel::Unreadable => None,
                opened => Some(opened),
            },
        }
    }
}

/// Output with a message behind it, where there is one.
pub open spec fn appended_message(output: Seq<u8>, message: Option<Seq<u8>>) -> Seq<u8> {
    match message {
        Some(bytes) => appended(output, bytes),
        None => output,
    }
}

/// Output with what a name of the directories shows.
pub open spec fn appended_name(output: Seq<u8>, candidates: Seq<MessageModel>) -> Seq<u8> {
    match first_opened(candidates) {
        Some(MessageModel::Message(bytes)) => appended(output, bytes),
        _ => output,
    }
}

/// Output with what the names of the directories show, in order, while there
/// is room for anything.
pub open spec fn appended_names(output: Seq<u8>, groups: Seq<Seq<MessageModel>>) -> Seq<u8>
    decreases groups.len(),
{
    if groups.len() == 0 {
        output
    } else {
        let before = appended_names(output, groups.drop_last());
        if before.len() >= MAX_MOTD_TOTAL {
            before
        } else {
            appended_name(before, groups.last())
        }
    }
}

/// Everything that the default places show.
pub open spec fn default_output(
    dynamic: Seq<MessageModel>,
    files: Seq<MessageModel>,
    groups: Seq<Seq<MessageModel>>,
) -> Seq<u8> {
    appended_names(
        appended_message(appended_message(Seq::empty(), first_message(dynamic)), first_message(files)),
        groups,
    )
}

/// Whether `r` is an output, and missing where it is empty.
pub open spec fn shows(r: Option<Vec<u8>>, output: Seq<u8>) -> bool {
    match r {
        Some(bytes) => bytes@ == output && output.len() > 0,
        None => output.len() == 0,
    }
}

proof fn lemma_first_message_stays(files: Seq<MessageModel>, n: int)
    requires
        0 <= n <= files.len(),
        first_message(files.take(n)) is Some,
    ensures
        first_message(files) == first_message(files.take(n)),
    decreases files.len(),
{
    if n == files.len() {
        assert(files.take(n) =~= files);
    } else {
        assert(files.drop_last().take(n) =~= files.take(n));
        lemma_first_message_stays(files.drop_last(), n);
    }
}

proof fn lemma_first_opened_stays(files: Seq<MessageModel>, n: int)
    requires
        0 <= n <= files.len(),
        first_opened(files.take(n)) is Some,
    ensures
        first_opened(files) == first_opened(files.take(n)),
    decreases files.len(),
{
    if n == files.len() {
        assert(files.take(n) =~= files);
    } else {
        assert(files.drop_last().take(n) =~= files.take(n));
        lemma_first_opened_stays(files.drop_last(), n);
    }
}

fn append_first_message(output: &mut Vec<u8>, files: &Vec<FileMessage>)
    requires
        old(output)@.len() <= MAX_MOTD_TOTAL,
    ensures
        final(output)@ == appended_message(old(output)@, first_message(files.deep_view())),
        final(output)@.len() <= MAX_MOTD_TOTAL,
{
    let ghost all = files.deep_view();
    let ghost start = output@;
    let mut i: usize = 0;
    assert(all.take(0) =~= Seq::empty());
    while i < files.len()
        invariant
            i <= files@.len(),
            all == files.deep_view(),
            start.len() <= MAX_MOTD_TOTAL,
            output@ == start,
            old(output)@ == start,
            first_message(all.take(i as int)) is None,
        decreases files@.len() - i,
    {
        proof {
            assert(all.take(i + 1).drop_last() =~= all.take(i as int));
            assert(all.take(i + 1).last() == files@[i as int].deep_view());
        }
        if let FileMessage::Message(bytes) = &files[i] {
            proof {
                lemma_first_message_stays(all, i + 1);
            }
            append_terminal_bytes(output, bytes.as_slice());
            return;
        }
        i += 1;
    }
    assert(all.take(i as int) =~= all);
}

fn append_name(output: &mut Vec<u8>, candidates: &Vec<FileMessage>)
    requires
        old(output)@.len() <= MAX_MOTD_TOTAL,
    ensures
        final(output)@ == appended_name(old(output)@, candidates.deep_view()),
        final(output)@.len() <= MAX_MOTD_TOTAL,
{
    let ghost all = candidates.deep_view();
    let ghost start = output@;
    let mut i: usize = 0;
    assert(all.take(0) =~= Seq::empty());
    while i < candidates.len()
        invariant
            i <= candidates@.len(),
            all == candidates.deep_view(),
            start.len() <= MAX_MOTD_TOTAL,
            output@ == start,
            old(output)@ == start,
            first_opened(all.take(i as int)) is None,
        decreases candidates@.len() - i,
    {
        proof {
            assert(all.take(i + 1).drop_last() =~= all.take(i as int));
            assert(all.take(i + 1).last() == candidates@[i as int].deep_view());
        }
        match &candidates[i] {
            FileMessage::Unreadable => {},
            FileMessage::NotRegular => {
                proof {
                    lemma_first_opened_stays(all, i + 1);
                }
                return;
            },
            FileMessage::Message(bytes) => {
                proof {
                    lemma_first_opened_stays(all, i + 1);
                }
                append_terminal_bytes(output, bytes.as_slice());
                return;
            },
        }
        i += 1;
    }
    assert(all.take(i as int) =~= all);
}

/// What a session shows from the default places: the generated message, the
/// first of the single files, and the names of the directories. `hushed`
/// tells that the user asked for none of it.
pub fn load_defaults_from(
    hushed: bool,
    dynamic: &Vec<FileMessage>,
    files: &Vec<FileMessage>,
    groups: &Vec<Vec<FileMessage>>,
) -> (r: Option<Vec<u8>>)
    ensures
        if hushed {
            r is None
        } else {
            shows(
                r,
                default_output(dynamic.deep_view(), files.deep_view(), groups.deep_view()),
            )
        },
        r matches Some(output) ==> output@.len() <= MAX_MOTD_TOTAL,
{
    if hushed {
        return None;
    }
    let mut output: Vec<u8> = Vec::new();
    assert(output@ =~= Seq::empty());
    append_first_message(&mut output, dynamic);
    append_first_message(&mut output, files);
    let ghost start = output@;
    let ghost all = groups.deep_view();
    let mut i: usize = 0;
    assert(all.take(0) =~= Seq::empty());
    while i < groups.len()
        invariant
            i <= groups@.len(),
            all == groups.deep_view(),
            output@.len() <= MAX_MOTD_TOTAL,
            output@ == appended_names(start, all.take(i as int)),
        decreases groups@.len() - i,
    {
        proof {
            assert(all.take(i + 1).drop_last() =~= all.take(i as int));
            assert(all.take(i + 1).last() == groups@[i as int].deep_view());
        }
        if output.len() < MAX_MOTD_TOTAL {
            append_name(&mut output, &groups[i]);
        }
        i += 1;
    }
    assert(all.take(i as int) =~= all);
    if output.len() > 0 {
        Some(output)
    } else {
        None
    }
}

/// What a session shows. A file that the operator named takes the place of
/// the defaults.
pub fn load_from(
    hushed: bool,
    named: Option<&FileMessage>,
    files: &Vec<FileMessage>,
    groups: &Vec<Vec<FileMessage>>,
) -> (r: Option<Vec<u8>>)
    ensures
        if hushed {
            r is None
        } else {
            match named {
                Some(file) => shows(
                    r,
                    match file.deep_view() {
                        MessageModel::Message(bytes) => appended(Seq::empty(), bytes),
                        _ => Seq::empty(),
                    },
                ),
                None => shows(
                    r,
                    default_output(Seq::empty(), files.deep_view(), groups.deep_view()),
                ),
            }
        },
{
    if hushed {
        return None;
    }
    match named {
        Some(FileMessage::Message(bytes)) => {
            let mut output: Vec<u8> = Vec::new();
            assert(output@ =~= Seq::empty());
            append_terminal_bytes(&mut output, bytes.as_slice());
            if output.len() > 0 {
                Some(output)
            } else {
                None
            }
        },
        Some(_) => None,
        None => {
            let none: Vec<FileMessage> = Vec::new();
            assert(none.deep_view() =~= Seq::empty());
            load_defaults_from(false, &none, files, groups)
        },
    }
}

/// What is shown never exceeds the total, whatever the files hold.
pub proof fn message_of_the_day_is_bounded(
    dynamic: Seq<MessageModel>,
    files: Seq<MessageModel>,
    groups: Seq<Seq<MessageModel>>,
)
    ensures
        default_output(dynamic, files, groups).len() <= MAX_MOTD_TOTAL,
{
    let first = appended_message(Seq::empty(), first_message(dynamic));
    let second = appended_message(first, first_message(files));
    lemma_message_bounded(Seq::empty(), first_message(dynamic));
    lemma_message_bounded(first, first_message(files));
    lemma_names_bounded(second, groups);
}

proof fn lemma_fitting_bounds(shown: nat, s: Seq<u8>)
    ensures
        0 <= fitting(shown, s) <= s.len(),
        fitting(shown, s) > 0 ==> shown + rendered(s.take(fitting(shown, s))).len()
            <= MAX_MOTD_TOTAL - 2,
    decreases s.len(),
{
    if s.len() > 0 {
        if shown + rendered(s).len() <= MAX_MOTD_TOTAL - 2 {
            assert(s.take(s.len() as int) =~= s);
        } else {
            lemma_fitting_bounds(shown, s.drop_last());
            let n = fitting(shown, s.drop_last());
            assert(s.drop_last().take(n) =~= s.take(n));
        }
    }
}

proof fn lemma_appended_bounded(output: Seq<u8>, message: Seq<u8>)
    requires
        output.len() <= MAX_MOTD_TOTAL,
    ensures
        appended(output, message).len() <= MAX_MOTD_TOTAL,
{
    let body = unterminated(message);
    lemma_fitting_bounds(output.len(), body);
    if fitting(output.len(), body) == 0 {
        assert(body.take(0) =~= Seq::empty());
    }
}

proof fn lemma_message_bounded(output: Seq<u8>, message: Option<Seq<u8>>)
    requires
        output.len() <= MAX_MOTD_TOTAL,
    ensures
        appended_message(output, message).len() <= MAX_MOTD_TOTAL,
{
    if message is Some {
        lemma_appended_bounded(output, message->0);
    }
}

proof fn lemma_names_bounded(output: Seq<u8>, groups: Seq<Seq<MessageModel>>)
    requires
        output.len() <= MAX_MOTD_TOTAL,
    ensures
        appended_names(output, groups).len() <= MAX_MOTD_TOTAL,
    decreases groups.len(),
{
    if groups.len() > 0 {
        lemma_names_bounded(output, groups.drop_last());
        let before = appended_names(output, groups.drop_last());
        if let Some(MessageModel::Message(bytes)) = first_opened(groups.last()) {
            lemma_appended_bounded(before, bytes);
        }
    }
}

// The directories.

/// An entry of a message directory.
#[derive(Debug)]
pub struct DirectoryEntry {
    /// The bytes of its name.
    pub name: Vec<u8>,
    /// A regular file, or a link to anything.
    pub shown: bool,
}

/// The contents of a [`DirectoryEntry`].
pub struct EntryModel {
    pub name: Seq<char>,
    pub shown: bool,
}

/// Bytes as the characters with their numbers, which stand in the same order.
pub open spec fn byte_text(bytes: Seq<u8>) -> Seq<char> {
    Seq::new(bytes.len(), |i: int| bytes[i] as char)
}

impl DeepView for DirectoryEntry {
    type V = EntryModel;

    open spec fn deep_view(&self) -> EntryModel {
        EntryModel { name: byte_text(self.name@), shown: self.shown }
    }
}

/// Where an entry stands: in which directory, and where in it.
pub type EntryPlace = (usize, usize);

/// The names found so far, with their entries, and whether the rest of the
/// directory is left out.
pub struct Found {
    pub names: Map<Seq<char>, Seq<EntryPlace>>,
    pub count: nat,
    pub full: bool,
}

/// What an entry adds: a name of several directories keeps the order of the
/// directories, and a new name too many ends its directory.
pub open spec fn with_entry(found: Found, entry: EntryModel, place: EntryPlace) -> Found {
    if found.full || !entry.shown {
        found
    } else if found.names.contains_key(entry.name) {
        Found { names: found.names.insert(entry.name, found.names[entry.name].push(place)), ..found }
    } else if found.count >= MAX_MOTD_ENTRIES {
        Found { full: true, ..found }
    } else {
        Found {
            names: found.names.insert(entry.name, seq![place]),
            count: found.count + 1,
            full: false,
        }
    }
}

/// What the entries of a directory add.
pub open spec fn with_entries(found: Found, directory: usize, entries: Seq<EntryModel>) -> Found
    decreases entries.len(),
{
    if entries.len() == 0 {
        Found { full: false, ..found }
    } else {
        with_entry(
            with_entries(found, directory, entries.drop_last()),
            entries.last(),
            (directory, (entries.len() - 1) as usize),
        )
    }
}

/// What directories hold, those with a higher priority first.
pub open spec fn with_directories(directories: Seq<Seq<EntryModel>>) -> Found
    decreases directories.len(),
{
    if directories.len() == 0 {
        Found { names: Map::empty(), count: 0, full: false }
    } else {
        with_entries(
            with_directories(directories.drop_last()),
            (directories.len() - 1) as usize,
            directories.last(),
        )
    }
}

fn text_of_bytes(bytes: &[u8]) -> (out: String)
    ensures
        out@ == byte_text(bytes@),
{
    let mut out = String::new();
    let mut i: usize = 0;
    assert(out@ =~= byte_text(bytes@).take(0));
    while i < bytes.len()
        invariant
            i <= bytes@.len(),
            out@ == byte_text(bytes@).take(i as int),
        decreases bytes@.len() - i,
    {
        out.push(bytes[i] as char);
        assert(out@ =~= byte_text(bytes@).take(i + 1));
        i += 1;
    }
    assert(byte_text(bytes@).take(i as int) =~= byte_text(bytes@));
    out
}

fn copy_places(places: &Vec<EntryPlace>) -> (copy: Vec<EntryPlace>)
    ensures
        copy@ == places@,
{
    let mut copy: Vec<EntryPlace> = Vec::new();
    let mut i: usize = 0;
    while i < places.len()
        invariant
            i <= places@.len(),
            copy@ == places@.take(i as int),
        decreases places@.len() - i,
    {
        copy.push(places[i]);
        assert(copy@ =~= places@.take(i + 1));
        i += 1;
    }
    assert(places@.take(i as int) =~= places@);
    copy
}

/// Group directory overrides by name in lexical display order. The entries
/// of a name stand in the order of the directories.
pub fn directory_message_candidates(directories: &Vec<Vec<DirectoryEntry>>) -> (groups: NameMap<
    Vec<EntryPlace>,
>)
    ensures
        groups.well_formed(),
        groups@ == with_directories(directories.deep_view()).names,
{
    let mut groups: NameMap<Vec<EntryPlace>> = NameMap::new();
    let ghost all = directories.deep_view();
    let mut d: usize = 0;
    assert(all.take(0) =~= Seq::empty());
    while d < directories.len()
        invariant
            d <= directories@.len(),
            all == directories.deep_view(),
            groups.well_formed(),
            groups@ == with_directories(all.take(d as int)).names,
            groups.entries@.len() == with_directories(all.take(d as int)).count,
        decreases directories@.len() - d,
    {
        let ghost before = with_directories(all.take(d as int));
        let ghost entries = directories@[d as int].deep_view();
        let mut full = false;
        let mut i: usize = 0;
        assert(entries.take(0) =~= Seq::empty());
        while i < directories[d].len()
            invariant
                d < directories@.len(),
                i <= directories@[d as int]@.len(),
                entries == directories@[d as int].deep_view(),
                groups.well_formed(),
                groups@ == with_entries(before, d, entries.take(i as int)).names,
                groups.entries@.len() == with_entries(before, d, entries.take(i as int)).count,
                full == with_entries(before, d, entries.take(i as int)).full,
            decreases directories@[d as int]@.len() - i,
        {
            let entry = &directories[d][i];
            proof {
                assert(entries.take(i + 1).drop_last() =~= entries.take(i as int));
                assert(entries.take(i + 1).last() == entry.deep_view());
                assert(entries.take(i + 1).len() - 1 == i);
            }
            if !full && entry.shown {
                let name = text_of_bytes(entry.name.as_slice());
                let known: Option<Vec<EntryPlace>> = match groups.get(name.as_str()) {
                    Some(places) => Some(copy_places(places)),
                    None => None,
                };
                match known {
                    Some(mut places) => {
                        let ghost old_places = places.deep_view();
                        places.push((d, i));
                        assert(places.deep_view() =~= old_places.push((d, i)));
                        groups.insert(name, places);
                    },
                    None => {
                        if groups.len() >= MAX_MOTD_ENTRIES {
                            full = true;
                        } else {
                            let mut places: Vec<EntryPlace> = Vec::new();
                            places.push((d, i));
                            assert(places.deep_view() =~= seq![(d, i)]);
                            groups.insert(name, places);
                        }
                    },
                }
            }
            i += 1;
        }
        proof {
            assert(entries.take(i as int) =~= entries);
            assert(all.take(d + 1).drop_last() =~= all.take(d as int));
            assert(all.take(d + 1).last() == entries);
            assert(all.take(d + 1).len() - 1 == d);
        }
        d += 1;
    }
    assert(all.take(d as int) =~= all);
    groups
}

// Sending.

/// Output in pieces that fit into packets.
pub open spec fn chunks(s: Seq<u8>) -> Seq<Seq<u8>>
    decreases s.len(),
{
    if s.len() == 0 {
        Seq::empty()
    } else if s.len() <= MAX_OUTPUT_CHUNK {
        seq![s]
    } else {
        seq![s.take(MAX_OUTPUT_CHUNK as int)] + chunks(s.skip(MAX_OUTPUT_CHUNK as int))
    }
}

pub open spec fn concatenated(list: Seq<Seq<u8>>) -> Seq<u8>
    decreases list.len(),
{
    if list.len() == 0 {
        Seq::empty()
    } else {
        list[0] + concatenated(list.skip(1))
    }
}

/// The pieces are the output, and none of them is empty or too long.
pub proof fn chunks_keep_the_output(s: Seq<u8>)
    ensures
        concatenated(chunks(s)) == s,
        forall|i: int|
            0 <= i < chunks(s).len() ==> 0 < (#[trigger] chunks(s)[i]).len() <= MAX_OUTPUT_CHUNK,
    decreases s.len(),
{
    if s.len() == 0 {
    } else if s.len() <= MAX_OUTPUT_CHUNK {
        assert(seq![s].skip(1) =~= Seq::<Seq<u8>>::empty());
        assert(concatenated(Seq::<Seq<u8>>::empty()) =~= Seq::<u8>::empty());
        assert(concatenated(seq![s]) =~= s);
    } else {
        let first = s.take(MAX_OUTPUT_CHUNK as int);
        let rest = s.skip(MAX_OUTPUT_CHUNK as int);
        chunks_keep_the_output(rest);
        assert(chunks(s).skip(1) =~= chunks(rest));
        assert(first + rest =~= s);
        assert forall|i: int| 0 <= i < chunks(s).len() implies 0 < (#[trigger] chunks(s)[i]).len()
            <= MAX_OUTPUT_CHUNK by {
            if i > 0 {
                assert(chunks(s)[i] == chunks(rest)[i - 1]);
            }
        }
    }
}

proof fn lemma_chunks_step(s: Seq<u8>, done: Seq<Seq<u8>>, at: int)
    requires
        0 <= at < s.len(),
        chunks(s) == done + chunks(s.skip(at)),
    ensures
        ({
            let end = if s.len() - at > MAX_OUTPUT_CHUNK {
                at + MAX_OUTPUT_CHUNK
            } else {
                s.len() as int
            };
            chunks(s) == done.push(s.subrange(at, end)) + chunks(s.skip(end))
        }),
{
    let rest = s.skip(at);
    if s.len() - at > MAX_OUTPUT_CHUNK {
        assert(rest.take(MAX_OUTPUT_CHUNK as int) =~= s.subrange(at, at + MAX_OUTPUT_CHUNK));
        assert(rest.skip(MAX_OUTPUT_CHUNK as int) =~= s.skip(at + MAX_OUTPUT_CHUNK));
        assert(done.push(s.subrange(at, at + MAX_OUTPUT_CHUNK)) + chunks(
            s.skip(at + MAX_OUTPUT_CHUNK),
        ) =~= done + (seq![s.subrange(at, at + MAX_OUTPUT_CHUNK)] + chunks(
            s.skip(at + MAX_OUTPUT_CHUNK),
        )));
    } else {
        assert(rest =~= s.subrange(at, s.len() as int));
        assert(s.skip(s.len() as int) =~= Seq::empty());
        assert(done.push(rest) + chunks(s.skip(s.len() as int)) =~= done + seq![rest]);
    }
}

/// The pieces in which output is sent.
pub fn output_chunks(text: &[u8]) -> (out: Vec<Vec<u8>>)
    ensures
        out.deep_view() == chunks(text@),
{
    let len: usize = text.len();
    let mut out: Vec<Vec<u8>> = Vec::new();
    let mut at: usize = 0;
    assert(text@.skip(0) =~= text@);
    assert(out.deep_view() + chunks(text@) =~= chunks(text@));
    while at < len
        invariant
            at <= len,
            len == text@.len(),
            chunks(text@) == out.deep_view() + chunks(text@.skip(at as int)),
        decreases len - at,
    {
        let end: usize = if len - at > MAX_OUTPUT_CHUNK {
            at + MAX_OUTPUT_CHUNK
        } else {
            len
        };
        let ghost before = out.deep_view();
        proof {
            lemma_chunks_step(text@, before, at as int);
        }
        let piece = bytes_of(slice_subrange(text, at, end));
        let ghost view = piece@;
        out.push(piece);
        assert(view.map_values(|b: u8| b) =~= view);
        assert(out.deep_view() =~= before.push(view)) by {
            assert(out.deep_view().last() =~= view);
        }
        at = end;
    }
    assert(text@.skip(at as int) =~= Seq::empty());
    assert(out.deep_view() + chunks(Seq::empty()) =~= out.deep_view());
    out
}

/// What has no line ends is shown as it is, and each line end is shown as the
/// two bytes that a raw terminal needs, also where only one was written.
pub proof fn line_ends_are_completed(before: Seq<u8>, line: Seq<u8>)
    requires
        !line.contains(10u8),
    ensures
        rendered(before + line) == rendered(before) + line,
        (before.len() == 0 || before.last() != 13) ==> rendered(before.push(10u8)) == rendered(
            before,
        ) + seq![13u8, 10u8],
        rendered(before.push(13u8).push(10u8)) == rendered(before) + seq![13u8, 10u8],
    decreases line.len(),
{
    if line.len() == 0 {
        assert(before + line =~= before);
        assert(rendered(before) + line =~= rendered(before));
    } else {
        let head = line.drop_last();
        assert(line[line.len() - 1] != 10u8) by {
            assert(line.contains(line[line.len() - 1]));
        }
        assert(!head.contains(10u8)) by {
            if head.contains(10u8) {
                let i = choose|i: int| 0 <= i < head.len() && head[i] == 10u8;
                assert(line[i] == 10u8);
            }
        }
        line_ends_are_completed(before, head);
        let all = before + line;
        assert(all.drop_last() =~= before + head);
        assert(all.last() == line.last());
        assert(rendered(all) =~= rendered(before) + line);
    }
    assert(before.push(10u8).drop_last() =~= before);
    let ended = before.push(13u8);
    assert(ended.drop_last() =~= before);
    assert(ended.push(10u8).drop_last() =~= ended);
    assert(rendered(ended) =~= rendered(before) + seq![13u8]);
    assert(rendered(ended.push(10u8)) =~= rendered(before) + seq![13u8, 10u8]);
}

/// A message whose body is a line that fits is shown behind the output.
proof fn lemma_fitting_body(output: Seq<u8>, line: Seq<u8>, message: Seq<u8>)
    requires
        line.len() > 0,
        !line.contains(10u8),
        output.len() + line.len() + 2 <= MAX_MOTD_TOTAL,
        message.len() > 0,
        unterminated(message) == line,
    ensures
        appended(output, message) == output + line + seq![13u8, 10u8],
{
    assert(rendered(line) == line) by {
        line_ends_are_completed(Seq::empty(), line);
        assert(Seq::<u8>::empty() + line =~= line);
        assert(rendered(Seq::empty()) =~= Seq::<u8>::empty());
    }
    assert(line.take(line.len() as int) =~= line);
    assert(fitting(output.len(), line) == line.len());
    let shown = output + line;
    assert(ended(shown) =~= shown + seq![13u8, 10u8]);
}

/// A line that fits is shown whole behind what is shown already, on a line of
/// its own, whether it was ended or not.
pub proof fn fitting_messages_are_shown_whole(output: Seq<u8>, line: Seq<u8>)
    requires
        line.len() > 0,
        !line.contains(10u8),
        line.last() != 13,
        output.len() + line.len() + 2 <= MAX_MOTD_TOTAL,
    ensures
        appended(output, line) == output + line + seq![13u8, 10u8],
        appended(output, line.push(10u8)) == output + line + seq![13u8, 10u8],
        appended(output, line.push(13u8).push(10u8)) == output + line + seq![13u8, 10u8],
        appended(output, Seq::empty()) == output,
{
    let terminated = line.push(10u8);
    let returned = line.push(13u8).push(10u8);
    assert(unterminated(line) == line) by {
        assert(line.contains(line[line.len() - 1]));
    }
    assert(unterminated(terminated) == line) by {
        assert(terminated.last() == 10 && terminated[terminated.len() - 2] == line.last());
        assert(terminated.drop_last() =~= line);
    }
    assert(unterminated(returned) == line) by {
        assert(returned.last() == 10 && returned[returned.len() - 2] == 13);
        assert(returned.take(returned.len() - 2) =~= line);
    }
    lemma_fitting_body(output, line, line);
    lemma_fitting_body(output, line, terminated);
    lemma_fitting_body(output, line, returned);
}

/// The first message of a list is the one that is shown; files without one do
/// not keep those behind them from being shown.
pub proof fn first_messages_are_shown(
    before: Seq<MessageModel>,
    bytes: Seq<u8>,
    after: Seq<MessageModel>,
)
    requires
        forall|i: int| 0 <= i < before.len() ==> !((#[trigger] before[i]) is Message),
    ensures
        first_message(before.push(MessageModel::Message(bytes)) + after) == Some(bytes),
        first_message(before) is None,
    decreases before.len() + after.len(),
{
    let all = before.push(MessageModel::Message(bytes)) + after;
    if after.len() > 0 {
        first_messages_are_shown(before, bytes, after.drop_last());
        assert(all.drop_last() =~= before.push(MessageModel::Message(bytes)) + after.drop_last());
    } else {
        assert(all =~= before.push(MessageModel::Message(bytes)));
        assert(all.drop_last() =~= before);
        assert(all.last() == MessageModel::Message(bytes));
        if before.len() > 0 {
            let head = before.drop_last();
            assert forall|i: int| 0 <= i < head.len() implies !((#[trigger] head[i]) is Message) by {
                assert(head[i] == before[i]);
            }
            first_messages_are_shown(head, bytes, Seq::empty());
            assert(!(before[before.len() - 1] is Message));
        }
    }
}

/// A user who wants silence sees nothing, and everyone else the message of
/// the system, of its files and of its directories, in this order.
pub proof fn messages_come_in_order(
    hushed: bool,
    dynamic: &Vec<FileMessage>,
    files: &Vec<FileMessage>,
    groups: &Vec<Vec<FileMessage>>,
    r: Option<Vec<u8>>,
    news: Seq<u8>,
    notice: Seq<u8>,
)
    requires
        call_ensures(load_defaults_from, (hushed, dynamic, files, groups), r),
        dynamic.deep_view() == seq![MessageModel::Message(news)],
        files.deep_view() == seq![MessageModel::Message(notice)],
        groups@.len() == 0,
        news.len() > 0 && notice.len() > 0,
        !news.contains(10u8) && !notice.contains(10u8),
        news.last() != 13 && notice.last() != 13,
        news.len() + notice.len() + 4 <= MAX_MOTD_TOTAL,
    ensures
        hushed ==> r is None,
        !hushed ==> (r matches Some(shown) && shown@ == news + seq![13u8, 10u8] + notice + seq![
            13u8,
            10u8,
        ]),
{
    first_messages_are_shown(Seq::empty(), news, Seq::empty());
    first_messages_are_shown(Seq::empty(), notice, Seq::empty());
    assert(Seq::<MessageModel>::empty().push(MessageModel::Message(news)) + Seq::empty()
        =~= dynamic.deep_view());
    assert(Seq::<MessageModel>::empty().push(MessageModel::Message(notice)) + Seq::empty()
        =~= files.deep_view());
    fitting_messages_are_shown_whole(Seq::empty(), news);
    let first = Seq::<u8>::empty() + news + seq![13u8, 10u8];
    assert(first =~= news + seq![13u8, 10u8]);
    fitting_messages_are_shown_whole(first, notice);
    assert(groups.deep_view() =~= Seq::<Seq<MessageModel>>::empty());
    assert(default_output(dynamic.deep_view(), files.deep_view(), groups.deep_view()) =~= first
        + notice + seq![13u8, 10u8]);
}

/// A message is shown up to its bound and not cut before.
pub proof fn messages_are_cut_at_their_bound(bytes: Vec<u8>, message: Vec<u8>)
    requires
        call_ensures(bounded_message, (bytes,), message),
    ensures
        message@.is_prefix_of(bytes@),
        message@.len() == bytes@.len() || message@.len() == MAX_MOTD_MESSAGE,
        bytes@.len() <= MAX_MOTD_MESSAGE ==> message@ == bytes@,
{
    assert(message@ =~= bytes@.subrange(0, message@.len() as int));
}

/// A file that was named takes the place of everything else that would be
/// shown.
pub proof fn named_files_are_shown_alone(
    line: Seq<u8>,
    file: &FileMessage,
    files: &Vec<FileMessage>,
    groups: &Vec<Vec<FileMessage>>,
    r: Option<Vec<u8>>,
    hushed: Option<Vec<u8>>,
)
    requires
        call_ensures(load_from, (false, Some(file), files, groups), r),
        call_ensures(load_from, (true, Some(file), files, groups), hushed),
    ensures
        hushed is None,
        file.deep_view() == MessageModel::Message(line) && line.len() > 0 && !line.contains(10u8)
            && line.last() != 13 && line.len() + 2 <= MAX_MOTD_TOTAL ==> (r matches Some(shown)
            && shown@ == line + seq![13u8, 10u8]),
        !(file.deep_view() is Message) ==> r is None,
{
    if file.deep_view() == MessageModel::Message(line) && line.len() > 0 && !line.contains(10u8)
        && line.last() != 13 && line.len() + 2 <= MAX_MOTD_TOTAL {
        fitting_messages_are_shown_whole(Seq::empty(), line);
        assert(Seq::<u8>::empty() + line + seq![13u8, 10u8] =~= line + seq![13u8, 10u8]);
    }
}

/// A name of several directories is found once, with its entries in the order
/// of the directories; an entry that is not shown is not found.
pub proof fn names_are_found_once(found: Found, entry: EntryModel, place: EntryPlace)
    requires
        !found.full,
        found.count < MAX_MOTD_ENTRIES,
    ensures
        !entry.shown ==> with_entry(found, entry, place) == found,
        entry.shown ==> with_entry(found, entry, place).names.dom() == found.names.dom().insert(
            entry.name,
        ) && with_entry(found, entry, place).names[entry.name].last() == place && (
        found.names.contains_key(entry.name) ==> with_entry(
            found,
            entry,
            place,
        ).names[entry.name].drop_last() == found.names[entry.name]),
        forall|name: Seq<char>|
            name != entry.name && found.names.contains_key(name) ==> #[trigger] with_entry(
                found,
                entry,
                place,
            ).names[name] == found.names[name],
{
    let after = with_entry(found, entry, place);
    if entry.shown {
        assert(after.names.dom() =~= found.names.dom().insert(entry.name));
        if found.names.contains_key(entry.name) {
            assert(after.names[entry.name].drop_last() =~= found.names[entry.name]);
        }
    }
}

/// A shown entry is found where it stands, while there is room for its name.
pub proof fn shown_entries_are_found(
    directories: &Vec<Vec<DirectoryEntry>>,
    groups: NameMap<Vec<EntryPlace>>,
    earlier: Seq<Seq<EntryModel>>,
    before: Seq<EntryModel>,
    entry: EntryModel,
)
    requires
        call_ensures(directory_message_candidates, (directories,), groups),
        directories.deep_view() == earlier.push(before.push(entry)),
        entry.shown,
        !with_directories(earlier.push(before)).full,
        with_directories(earlier.push(before)).count < MAX_MOTD_ENTRIES,
    ensures
        groups@.contains_key(entry.name),
        groups@[entry.name].last() == (earlier.len() as usize, before.len() as usize),
{
    let all = earlier.push(before.push(entry));
    let some = earlier.push(before);
    assert(all.drop_last() =~= earlier);
    assert(some.drop_last() =~= earlier);
    assert(before.push(entry).drop_last() =~= before);
    let found = with_directories(some);
    assert(with_directories(all) == with_entry(
        found,
        entry,
        (earlier.len() as usize, before.len() as usize),
    ));
    names_are_found_once(found, entry, (earlier.len() as usize, before.len() as usize));
}

} // verus!
