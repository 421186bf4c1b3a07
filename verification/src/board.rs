//! A board directory read as lanes of cards.
//!
//! A board is a directory. Its subdirectories are its lanes, and the
//! markdown files of a lane are the lane's cards. Names that begin with a
//! dot are passed over on both levels, and so is every entry of the wrong
//! kind: a file among the lanes, a directory among the cards.

use vstd::prelude::*;
use crate::text::{from_chars, to_chars};
use crate::timestamp::Timestamp;

verus! {

/// Whether a name begins with a dot.
pub open spec fn hidden(name: Seq<char>) -> bool {
    name.len() > 0 && name[0] == '.'
}

/// The ending that marks a card's file.
pub open spec fn card_suffix() -> Seq<char> {
    seq!['.', 'm', 'd']
}

/// Whether this is the name of a card's file: it ends in `.md` and does not
/// begin with a dot.
pub open spec fn card_file(name: Seq<char>) -> bool {
    card_suffix().is_suffix_of(name) && !hidden(name)
}

/// The name of the card that a file holds: the file's name without a
/// trailing `.md`.
pub open spec fn card_title(file_name: Seq<char>) -> Seq<char> {
    if card_suffix().is_suffix_of(file_name) {
        file_name.subrange(0, file_name.len() - 3)
    } else {
        file_name
    }
}

/// The strings as sequences of characters.
pub open spec fn texts(names: Seq<String>) -> Seq<Seq<char>> {
    names.map_values(|name: String| name@)
}

/// What kind of thing a directory entry is.
#[derive(Clone, Copy, Debug, PartialEq, Eq, Structural)]
pub enum EntryKind {
    /// A regular file.
    File,
    /// A directory.
    Directory,
    /// Anything else, and whatever could not be told.
    Other,
}

/// What a directory listing tells of one entry.
#[derive(Clone, Debug, PartialEq, Eq)]
pub struct DirEntry {
    /// The entry's name within its directory.
    pub name: String,
    /// What kind of thing the entry is.
    pub kind: EntryKind,
}

/// Whether a directory entry of a board is a lane: a directory whose name
/// does not begin with a dot.
pub open spec fn lane_entry(entry: DirEntry) -> bool {
    entry.kind == EntryKind::Directory && !hidden(entry.name@)
}

/// Whether a directory entry of a lane is a card: a regular file whose name
/// ends in `.md` and does not begin with a dot.
pub open spec fn card_entry(entry: DirEntry) -> bool {
    entry.kind == EntryKind::File && card_file(entry.name@)
}

/// The names of the lanes among the entries of a board, in listing order.
pub open spec fn lanes_among(entries: Seq<DirEntry>) -> Seq<Seq<char>> {
    texts(
        entries.filter(|entry: DirEntry| lane_entry(entry)).map_values(
            |entry: DirEntry| entry.name,
        ),
    )
}

/// The names of the card files among the entries of a lane, in listing
/// order.
pub open spec fn cards_among(entries: Seq<DirEntry>) -> Seq<Seq<char>> {
    texts(
        entries.filter(|entry: DirEntry| card_entry(entry)).map_values(
            |entry: DirEntry| entry.name,
        ),
    )
}

/// A card: one markdown file of a lane.
#[derive(Clone, Debug, PartialEq, Eq)]
pub struct Card {
    /// The file's name without its `.md`.
    pub name: String,
    /// The whole text of the file.
    pub content: String,
    /// When the file was last modified.
    pub last_updated: Timestamp,
    /// When the file was created.
    pub created_at: Timestamp,
}

/// A lane: one subdirectory of a board, with its cards in listing order.
#[derive(Clone, Debug, PartialEq, Eq)]
pub struct Lane {
    /// The directory's name.
    pub name: String,
    /// The cards of the lane.
    pub files: Vec<Card>,
}

/// What reading a board has to do first.
#[derive(Clone, Debug, PartialEq, Eq)]
pub enum BoardAccess {
    /// The board's directory does not exist: create it. The board has no
    /// lanes yet.
    Provision,
    /// Read these lanes, in this order.
    Lanes(Vec<String>),
}

fn ends_with_card_suffix(chars: &Vec<char>) -> (ends: bool)
    ensures
        ends == card_suffix().is_suffix_of(chars@),
{
    let n: usize = chars.len();
    n >= 3 && chars[n - 3] == '.' && chars[n - 2] == 'm' && chars[n - 1] == 'd'
}

/// Whether `name` begins with a dot.
pub fn is_hidden(name: &str) -> (answer: bool)
    ensures
        answer == hidden(name@),
{
    !name.is_empty() && name.get_char(0) == '.'
}

/// Whether `entry` is a lane of the board it was found in.
pub fn is_lane(entry: &DirEntry) -> (answer: bool)
    ensures
        answer == lane_entry(*entry),
{
    match entry.kind {
        EntryKind::Directory => !is_hidden(entry.name.as_str()),
        _ => false,
    }
}

/// Whether `name` is the name of a card's file.
pub fn is_card_file(name: &str) -> (answer: bool)
    ensures
        answer == card_file(name@),
{
    let chars = to_chars(name);
    ends_with_card_suffix(&chars) && !(chars.len() > 0 && chars[0] == '.')
}

/// Whether `entry` is a card of the lane it was found in.
pub fn is_card(entry: &DirEntry) -> (answer: bool)
    ensures
        answer == card_entry(*entry),
{
    match entry.kind {
        EntryKind::File => is_card_file(entry.name.as_str()),
        _ => false,
    }
}

/// The name of the card held by the file `file_name`.
pub fn card_name(file_name: &str) -> (name: String)
    ensures
        name@ == card_title(file_name@),
{
    let chars = to_chars(file_name);
    if ends_with_card_suffix(&chars) {
        from_chars(&chars, 0, chars.len() - 3)
    } else {
        from_chars(&chars, 0, chars.len())
    }
}

/// The lanes to read, given the entries of a board's directory.
pub fn lane_names(entries: &Vec<DirEntry>) -> (names: Vec<String>)
    ensures
        texts(names@) == lanes_among(entries@),
{
    let ghost is_lane_entry = |entry: DirEntry| lane_entry(entry);
    let ghost name_of = |entry: DirEntry| entry.name;
    let mut names: Vec<String> = Vec::new();
    let mut i: usize = 0;
    proof {
        reveal(Seq::filter);
        assert(entries@.take(0).filter(is_lane_entry) =~= Seq::<DirEntry>::empty());
    }
    while i < entries.len()
        invariant
            i <= entries.len(),
            is_lane_entry == |entry: DirEntry| lane_entry(entry),
            name_of == |entry: DirEntry| entry.name,
            names@ == entries@.take(i as int).filter(is_lane_entry).map_values(name_of),
        decreases entries.len() - i,
    {
        proof {
            assert(entries@.take(i + 1) == entries@.take(i as int).push(entries@[i as int]));
            entries@.take(i as int).lemma_filter_push(entries@[i as int], is_lane_entry);
        }
        if is_lane(&entries[i]) {
            names.push(entries[i].name.clone());
        }
        i += 1;
    }
    assert(entries@.take(i as int) == entries@);
    names
}

/// The files to read as cards, given the entries of a lane's directory.
pub fn card_files(entries: &Vec<DirEntry>) -> (files: Vec<String>)
    ensures
        texts(files@) == cards_among(entries@),
{
    let ghost is_card_entry = |entry: DirEntry| card_entry(entry);
    let ghost name_of = |entry: DirEntry| entry.name;
    let mut files: Vec<String> = Vec::new();
    let mut i: usize = 0;
    proof {
        reveal(Seq::filter);
        assert(entries@.take(0).filter(is_card_entry) =~= Seq::<DirEntry>::empty());
    }
    while i < entries.len()
        invariant
            i <= entries.len(),
            is_card_entry == |entry: DirEntry| card_entry(entry),
            name_of == |entry: DirEntry| entry.name,
            files@ == entries@.take(i as int).filter(is_card_entry).map_values(name_of),
        decreases entries.len() - i,
    {
        proof {
            assert(entries@.take(i + 1) == entries@.take(i as int).push(entries@[i as int]));
            entries@.take(i as int).lemma_filter_push(entries@[i as int], is_card_entry);
        }
        if is_card(&entries[i]) {
            files.push(entries[i].name.clone());
        }
        i += 1;
    }
    assert(entries@.take(i as int) == entries@);
    files
}

/// What reading a board has to do first. `listing` holds the entries of the
/// board's directory, or nothing where the directory does not exist.
pub fn open_board(listing: Option<&Vec<DirEntry>>) -> (access: BoardAccess)
    ensures
        match listing {
            None => access == BoardAccess::Provision,
            Some(entries) => access matches BoardAccess::Lanes(names) && texts(names@)
                == lanes_among(entries@),
        },
{
    match listing {
        None => BoardAccess::Provision,
        Some(entries) => BoardAccess::Lanes(lane_names(entries)),
    }
}

impl Card {
    /// The card held by the file `file_name` with the given text. A time
    /// that the file system could not tell is taken to be the epoch.
    pub fn from_file(
        file_name: &str,
        content: String,
        last_updated: Option<Timestamp>,
        created_at: Option<Timestamp>,
    ) -> (card: Card)
        ensures
            card.name@ == card_title(file_name@),
            card.content == content,
            card.last_updated == Timestamp::known_or_epoch(last_updated),
            card.created_at == Timestamp::known_or_epoch(created_at),
    {
        Card {
            name: card_name(file_name),
            content,
            last_updated: Timestamp::or_epoch(last_updated),
            created_at: Timestamp::or_epoch(created_at),
        }
    }
}

impl Lane {
    /// The lane of the given name and cards.
    pub fn new(name: String, files: Vec<Card>) -> (lane: Lane)
        ensures
            lane.name == name,
            lane.files == files,
    {
        Lane { name, files }
    }
}

/// No lane has a name that begins with a dot, and every lane is a directory
/// of the listing.
pub proof fn lemma_lanes_are_visible_directories(entries: Seq<DirEntry>, i: int)
    requires
        0 <= i < lanes_among(entries).len(),
    ensures
        !hidden(lanes_among(entries)[i]),
        exists|j: int|
            0 <= j < entries.len() && entries[j].kind == EntryKind::Directory
                && #[trigger] entries[j].name@ == lanes_among(entries)[i],
{
    let is_lane_entry = |entry: DirEntry| lane_entry(entry);
    let lanes = entries.filter(is_lane_entry);
    entries.lemma_filter_pred(is_lane_entry, i);
    assert(lanes.contains(lanes[i]));
    entries.lemma_filter_contains_rev(is_lane_entry, lanes[i]);
    let j: int = choose|j: int| 0 <= j < entries.len() && entries[j] == lanes[i];
    assert(entries[j].name@ == lanes_among(entries)[i]);
}

/// Every file read as a card is a regular file of the listing whose name
/// ends in `.md` and does not begin with a dot: no directory is read as a
/// card, whatever its name.
pub proof fn lemma_cards_are_visible_markdown_files(entries: Seq<DirEntry>, i: int)
    requires
        0 <= i < cards_among(entries).len(),
    ensures
        card_file(cards_among(entries)[i]),
        exists|j: int|
            0 <= j < entries.len() && entries[j].kind == EntryKind::File
                && #[trigger] entries[j].name@ == cards_among(entries)[i],
{
    let is_card_entry = |entry: DirEntry| card_entry(entry);
    let cards = entries.filter(is_card_entry);
    entries.lemma_filter_pred(is_card_entry, i);
    assert(cards.contains(cards[i]));
    entries.lemma_filter_contains_rev(is_card_entry, cards[i]);
    let j: int = choose|j: int| 0 <= j < entries.len() && entries[j] == cards[i];
    assert(entries[j].name@ == cards_among(entries)[i]);
}

/// Every regular file of a lane whose name ends in `.md` and does not begin
/// with a dot is read as a card, and every visible directory of a board is
/// read as a lane: none is left out.
pub proof fn lemma_no_card_or_lane_is_left_out(entries: Seq<DirEntry>, j: int)
    requires
        0 <= j < entries.len(),
    ensures
        card_entry(entries[j]) ==> cards_among(entries).contains(entries[j].name@),
        lane_entry(entries[j]) ==> lanes_among(entries).contains(entries[j].name@),
{
    let is_card_entry = |entry: DirEntry| card_entry(entry);
    let is_lane_entry = |entry: DirEntry| lane_entry(entry);
    if card_entry(entries[j]) {
        entries.lemma_filter_contains(is_card_entry, j);
        let cards = entries.filter(is_card_entry);
        let k: int = choose|k: int| 0 <= k < cards.len() && cards[k] == entries[j];
        assert(cards_among(entries)[k] == entries[j].name@);
    }
    if lane_entry(entries[j]) {
        entries.lemma_filter_contains(is_lane_entry, j);
        let lanes = entries.filter(is_lane_entry);
        let k: int = choose|k: int| 0 <= k < lanes.len() && lanes[k] == entries[j];
        assert(lanes_among(entries)[k] == entries[j].name@);
    }
}

/// A card's name is its file's name without the `.md`, so two card files of
/// one lane never give the same card.
pub proof fn lemma_card_title_is_injective(a: Seq<char>, b: Seq<char>)
    requires
        card_file(a),
        card_file(b),
        card_title(a) == card_title(b),
    ensures
        a == b,
        a == card_title(a) + card_suffix(),
{
    assert(a =~= card_title(a) + card_suffix());
    assert(b =~= card_title(b) + card_suffix());
}

} // verus!
