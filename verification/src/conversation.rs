//! Conversation entries and the colours of their senders.
//!
//! Every sender name gets a colour the first time it is seen: the palette
//! entry under a cursor that then moves on by one, wrapping after the last
//! entry. The registry is modelled as the sequence of the names it has
//! seen, in the order in which they were first seen: the colour of a name is
//! the palette entry at its position modulo the palette's size.

use vstd::prelude::*;
use vstd::string::*;

use crate::text::{
    chars_of, find_char, index_of, remove_char, string_of, trim, trimmed, without,
};

verus! {

/// Number of colours in the palette.
pub const PALETTE_SIZE: usize = 20;

/// A colour, by its red, green and blue channels.
#[derive(Debug, Clone, Copy, PartialEq, Eq)]
pub struct Rgb {
    pub r: u8,
    pub g: u8,
    pub b: u8,
}

/// One line of the conversation: who said it, in which colour it is shown,
/// and what was said. A line of the system has an empty name.
#[derive(Debug, Clone, PartialEq, Eq)]
pub struct ConversationMessage {
    pub name: String,
    pub color: Rgb,
    pub content: String,
}

/// How an entry is laid out on the screen.
#[derive(Debug, Clone, Copy, PartialEq, Eq)]
pub enum EntryLayout {
    /// A line of the system: the content alone.
    SystemLine,
    /// The user's own message: name and content, set to the far side.
    OwnMessage,
    /// Somebody else's message: name and content.
    OtherMessage,
}

/// The mathematical content of a `ConversationMessage`.
pub struct EntryView {
    pub name: Seq<char>,
    pub color: Rgb,
    pub content: Seq<char>,
}

impl View for ConversationMessage {
    type V = EntryView;

    open spec fn view(&self) -> EntryView {
        EntryView { name: self.name@, color: self.color, content: self.content@ }
    }
}

/// Assigns colours to sender names and builds conversation entries.
#[derive(Debug, Clone, PartialEq, Eq)]
pub struct ConversationMessageManager {
    names: Vec<String>,
}

/// The palette, in the order in which its colours are handed out.
pub open spec fn palette() -> Seq<Rgb> {
    seq![
        Rgb { r: 26, g: 77, b: 153 },
        Rgb { r: 51, g: 128, b: 77 },
        Rgb { r: 153, g: 77, b: 26 },
        Rgb { r: 128, g: 51, b: 102 },
        Rgb { r: 179, g: 128, b: 51 },
        Rgb { r: 51, g: 153, b: 128 },
        Rgb { r: 204, g: 77, b: 77 },
        Rgb { r: 77, g: 179, b: 102 },
        Rgb { r: 102, g: 102, b: 179 },
        Rgb { r: 179, g: 102, b: 153 },
        Rgb { r: 77, g: 153, b: 179 },
        Rgb { r: 153, g: 179, b: 77 },
        Rgb { r: 128, g: 77, b: 179 },
        Rgb { r: 51, g: 102, b: 179 },
        Rgb { r: 179, g: 153, b: 77 },
        Rgb { r: 77, g: 179, b: 153 },
        Rgb { r: 102, g: 77, b: 153 },
        Rgb { r: 153, g: 102, b: 77 },
        Rgb { r: 51, g: 128, b: 153 },
        Rgb { r: 179, g: 77, b: 128 },
    ]
}

/// The name under which the user's own messages stand in the log.
pub open spec fn you() -> Seq<char> {
    "You"@
}

/// How `entry` is laid out.
pub open spec fn layout_of(entry: EntryView) -> EntryLayout {
    if entry.name.len() == 0 {
        EntryLayout::SystemLine
    } else if entry.name == you() {
        EntryLayout::OwnMessage
    } else {
        EntryLayout::OtherMessage
    }
}

/// The colour of lines that have no sender.
pub open spec fn neutral() -> Rgb {
    Rgb { r: 0, g: 0, b: 0 }
}

/// Position of `name` among `names`, or their number when it is not there.
pub open spec fn position(names: Seq<Seq<char>>, name: Seq<char>) -> nat
    decreases names.len(),
{
    if names.len() > 0 && names.first() != name {
        1 + position(names.drop_first(), name)
    } else {
        0
    }
}

/// Whether `name` is among `names`.
pub open spec fn known(names: Seq<Seq<char>>, name: Seq<char>) -> bool {
    position(names, name) < names.len()
}

/// The names seen once `name` has been asked for.
pub open spec fn recorded(names: Seq<Seq<char>>, name: Seq<char>) -> Seq<Seq<char>> {
    if known(names, name) {
        names
    } else {
        names.push(name)
    }
}

/// The names seen once each of `asked` has been asked for, in order.
pub open spec fn recorded_all(names: Seq<Seq<char>>, asked: Seq<Seq<char>>) -> Seq<Seq<char>>
    decreases asked.len(),
{
    if asked.len() == 0 {
        names
    } else {
        recorded(recorded_all(names, asked.drop_last()), asked.last())
    }
}

/// The palette index that the next unseen name will get.
pub open spec fn cursor(names: Seq<Seq<char>>) -> nat {
    names.len() % 20
}

/// The colour of `name`, one of `names`.
pub open spec fn color_of(names: Seq<Seq<char>>, name: Seq<char>) -> Rgb {
    palette()[(position(names, name) % 20) as int]
}

/// Whether `raw` names a sender: whether it holds the delimiter `>`.
pub open spec fn has_sender(raw: Seq<char>) -> bool {
    index_of(raw, '>') < raw.len()
}

/// The sender that `raw` names: what stands before its first `>`, trimmed.
pub open spec fn sender_of(raw: Seq<char>) -> Seq<char> {
    trimmed(raw.take(index_of(raw, '>') as int))
}

/// The body of `raw`: what stands after its first `>`, with every further
/// `>` taken out, trimmed.
pub open spec fn body_of(raw: Seq<char>) -> Seq<char> {
    trimmed(without(raw.skip(index_of(raw, '>') as int + 1), '>'))
}

/// The entry of the system line `text`.
pub open spec fn system_entry(text: Seq<char>) -> EntryView {
    EntryView { name: Seq::empty(), color: neutral(), content: text }
}

/// The entry of `content` said by `name`, once `name` is among `names`.
pub open spec fn entry_of(names: Seq<Seq<char>>, name: Seq<char>, content: Seq<char>) -> EntryView {
    EntryView { name, color: color_of(names, name), content }
}

/// The names seen after `raw` has been built.
pub open spec fn names_after(names: Seq<Seq<char>>, raw: Seq<char>) -> Seq<Seq<char>> {
    if has_sender(raw) {
        recorded(names, sender_of(raw))
    } else {
        names
    }
}

/// The entry that `raw` is built into when `names` have been seen.
pub open spec fn built(names: Seq<Seq<char>>, raw: Seq<char>) -> EntryView {
    if has_sender(raw) {
        entry_of(names_after(names, raw), sender_of(raw), body_of(raw))
    } else {
        system_entry(raw)
    }
}

/// The names seen after each of `raws` has been built, in order.
pub open spec fn names_after_all(names: Seq<Seq<char>>, raws: Seq<Seq<char>>) -> Seq<Seq<char>>
    decreases raws.len(),
{
    if raws.len() == 0 {
        names
    } else {
        names_after(names_after_all(names, raws.drop_last()), raws.last())
    }
}

/// The entries that `raws` are built into, in order, when `names` have been
/// seen before the first of them.
pub open spec fn built_all(names: Seq<Seq<char>>, raws: Seq<Seq<char>>) -> Seq<EntryView> {
    Seq::new(raws.len(), |i: int| built(names_after_all(names, raws.take(i)), raws[i]))
}

/// What `position` returns lies within `names` or is their number; no name
/// before it is `name`; and it holds `name` unless it is their number.
pub proof fn lemma_position_bounds(names: Seq<Seq<char>>, name: Seq<char>)
    ensures
        position(names, name) <= names.len(),
        forall|j: int| 0 <= j < position(names, name) ==> #[trigger] names[j] != name,
        known(names, name) ==> names[position(names, name) as int] == name,
    decreases names.len(),
{
    if names.len() > 0 && names.first() != name {
        let rest = names.drop_first();
        lemma_position_bounds(rest, name);
        assert forall|j: int| 0 <= j < position(names, name) implies #[trigger] names[j] != name by {
            if j > 0 {
                assert(names[j] == rest[j - 1]);
            }
        }
        if known(names, name) {
            assert(names[position(names, name) as int] == rest[position(rest, name) as int]);
        }
    }
}

/// The position of `name` is the first index that holds it.
pub proof fn lemma_position_is(names: Seq<Seq<char>>, name: Seq<char>, k: int)
    requires
        0 <= k <= names.len(),
        forall|j: int| 0 <= j < k ==> #[trigger] names[j] != name,
        k == names.len() || names[k] == name,
    ensures
        position(names, name) == k,
    decreases names.len(),
{
    if k > 0 {
        let rest = names.drop_first();
        assert forall|j: int| 0 <= j < k - 1 implies #[trigger] rest[j] != name by {
            assert(rest[j] == names[j + 1]);
        }
        lemma_position_is(rest, name, k - 1);
    }
}

/// Asking for a name leaves every name that was seen where it stood, and
/// with it its colour; the name asked for is seen afterwards.
pub proof fn lemma_recorded(names: Seq<Seq<char>>, asked: Seq<char>, seen: Seq<char>)
    requires
        known(names, seen),
    ensures
        known(recorded(names, asked), seen),
        position(recorded(names, asked), seen) == position(names, seen),
        color_of(recorded(names, asked), seen) == color_of(names, seen),
        known(recorded(names, asked), asked),
{
    lemma_position_bounds(names, seen);
    lemma_position_bounds(names, asked);
    let after = recorded(names, asked);
    let k = position(names, seen) as int;
    assert forall|j: int| 0 <= j < k implies #[trigger] after[j] != seen by {
        assert(after[j] == names[j]);
    }
    assert(after[k] == names[k]);
    lemma_position_is(after, seen, k);
    if !known(names, asked) {
        let n = names.len() as int;
        assert forall|j: int| 0 <= j < n implies #[trigger] after[j] != asked by {
            assert(after[j] == names[j]);
        }
        assert(after[n] == asked);
        lemma_position_is(after, asked, n);
    }
}

/// Asking for a name records no name twice.
pub proof fn lemma_no_duplicates_kept(names: Seq<Seq<char>>, asked: Seq<char>)
    requires
        names.no_duplicates(),
    ensures
        recorded(names, asked).no_duplicates(),
{
    lemma_position_bounds(names, asked);
    let after = recorded(names, asked);
    assert forall|i: int, j: int|
        0 <= i < after.len() && 0 <= j < after.len() && i != j implies after[i] != after[j] by {
        if i < names.len() {
            assert(after[i] == names[i]);
        }
        if j < names.len() {
            assert(after[j] == names[j]);
        }
    }
}

/// A name that was not seen takes the palette entry under the cursor, and
/// the cursor moves on by one, wrapping after the last entry.
pub proof fn lemma_first_assignment(names: Seq<Seq<char>>, name: Seq<char>)
    requires
        !known(names, name),
    ensures
        color_of(recorded(names, name), name) == palette()[cursor(names) as int],
        cursor(recorded(names, name)) == (cursor(names) + 1) % 20,
{
    lemma_position_bounds(names, name);
    let after = recorded(names, name);
    let n = names.len() as int;
    assert forall|j: int| 0 <= j < n implies #[trigger] after[j] != name by {
        assert(after[j] == names[j]);
    }
    assert(after[n] == name);
    lemma_position_is(after, name, n);
}

/// Colour stability: whatever names are asked for afterwards, and in
/// whatever order, a name that was seen keeps its colour.
pub proof fn lemma_color_stable(names: Seq<Seq<char>>, asked: Seq<Seq<char>>, seen: Seq<char>)
    requires
        known(names, seen),
    ensures
        known(recorded_all(names, asked), seen),
        color_of(recorded_all(names, asked), seen) == color_of(names, seen),
    decreases asked.len(),
{
    if asked.len() > 0 {
        lemma_color_stable(names, asked.drop_last(), seen);
        lemma_recorded(recorded_all(names, asked.drop_last()), asked.last(), seen);
    }
}

/// Names that were never seen and differ from each other are recorded
/// behind the names seen before, in the order in which they are asked for.
pub proof fn lemma_fresh_positions(names: Seq<Seq<char>>, fresh: Seq<Seq<char>>, i: int)
    requires
        fresh.no_duplicates(),
        forall|j: int| 0 <= j < fresh.len() ==> !known(names, #[trigger] fresh[j]),
        0 <= i < fresh.len(),
    ensures
        recorded_all(names, fresh) == names + fresh,
        position(recorded_all(names, fresh), fresh[i]) == names.len() + i,
{
    let after = names + fresh;
    lemma_fresh_prefix(names, fresh);
    lemma_position_bounds(names, fresh[i]);
    assert forall|j: int| 0 <= j < names.len() + i implies #[trigger] after[j] != fresh[i] by {
        if j < names.len() {
            assert(after[j] == names[j]);
        } else {
            assert(after[j] == fresh[j - names.len()]);
        }
    }
    assert(after[names.len() + i] == fresh[i]);
    lemma_position_is(after, fresh[i], names.len() + i);
}

/// Names that were never seen and differ from each other are all recorded.
pub proof fn lemma_fresh_prefix(names: Seq<Seq<char>>, fresh: Seq<Seq<char>>)
    requires
        fresh.no_duplicates(),
        forall|j: int| 0 <= j < fresh.len() ==> !known(names, #[trigger] fresh[j]),
    ensures
        recorded_all(names, fresh) == names + fresh,
    decreases fresh.len(),
{
    if fresh.len() == 0 {
        assert(names + fresh =~= names);
    } else {
        let head = fresh.drop_last();
        let last = fresh.last();
        assert forall|j: int| 0 <= j < head.len() implies !known(names, #[trigger] head[j]) by {
            assert(head[j] == fresh[j]);
        }
        lemma_fresh_prefix(names, head);
        let before = names + head;
        lemma_position_bounds(names, last);
        assert forall|j: int| 0 <= j < before.len() implies #[trigger] before[j] != last by {
            if j < names.len() {
                assert(before[j] == names[j]);
            } else {
                assert(before[j] == fresh[j - names.len()]);
            }
        }
        lemma_position_is(before, last, before.len() as int);
        assert(before.push(last) =~= names + fresh);
    }
}

/// The palette wraps: of names that were never seen and differ from each
/// other, the one asked for twenty places after another gets the colour of
/// that other. The twenty-first new name has the colour of the first.
pub proof fn lemma_palette_wraps(names: Seq<Seq<char>>, fresh: Seq<Seq<char>>, i: int)
    requires
        fresh.no_duplicates(),
        forall|j: int| 0 <= j < fresh.len() ==> !known(names, #[trigger] fresh[j]),
        0 <= i,
        i + 20 < fresh.len(),
    ensures
        color_of(recorded_all(names, fresh), fresh[i + 20]) == color_of(
            recorded_all(names, fresh),
            fresh[i],
        ),
{
    lemma_fresh_positions(names, fresh, i);
    lemma_fresh_positions(names, fresh, i + 20);
}

/// The palette entry at `i`, counted round the palette.
pub fn palette_color(i: usize) -> (c: Rgb)
    ensures
        c == palette()[(i % 20) as int],
{
    let k: usize = i % PALETTE_SIZE;
    if k == 0 {
        Rgb { r: 26, g: 77, b: 153 }
    } else if k == 1 {
        Rgb { r: 51, g: 128, b: 77 }
    } else if k == 2 {
        Rgb { r: 153, g: 77, b: 26 }
    } else if k == 3 {
        Rgb { r: 128, g: 51, b: 102 }
    } else if k == 4 {
        Rgb { r: 179, g: 128, b: 51 }
    } else if k == 5 {
        Rgb { r: 51, g: 153, b: 128 }
    } else if k == 6 {
        Rgb { r: 204, g: 77, b: 77 }
    } else if k == 7 {
        Rgb { r: 77, g: 179, b: 102 }
    } else if k == 8 {
        Rgb { r: 102, g: 102, b: 179 }
    } else if k == 9 {
        Rgb { r: 179, g: 102, b: 153 }
    } else if k == 10 {
        Rgb { r: 77, g: 153, b: 179 }
    } else if k == 11 {
        Rgb { r: 153, g: 179, b: 77 }
    } else if k == 12 {
        Rgb { r: 128, g: 77, b: 179 }
    } else if k == 13 {
        Rgb { r: 51, g: 102, b: 179 }
    } else if k == 14 {
        Rgb { r: 179, g: 153, b: 77 }
    } else if k == 15 {
        Rgb { r: 77, g: 179, b: 153 }
    } else if k == 16 {
        Rgb { r: 102, g: 77, b: 153 }
    } else if k == 17 {
        Rgb { r: 153, g: 102, b: 77 }
    } else if k == 18 {
        Rgb { r: 51, g: 128, b: 153 }
    } else {
        Rgb { r: 179, g: 77, b: 128 }
    }
}

/// The colour of lines that have no sender.
pub fn neutral_color() -> (c: Rgb)
    ensures
        c == neutral(),
{
    Rgb { r: 0, g: 0, b: 0 }
}

impl ConversationMessage {
    /// The line `text` of the system: no sender, the neutral colour.
    pub fn system(text: String) -> (entry: ConversationMessage)
        ensures
            entry@ == system_entry(text@),
    {
        ConversationMessage { name: String::new(), color: neutral_color(), content: text }
    }

    /// How the entry is laid out: by whether it has a sender, and whether
    /// that sender is the user.
    pub fn layout(&self) -> (layout: EntryLayout)
        ensures
            layout == layout_of(self@),
    {
        if self.name.as_str().is_empty() {
            EntryLayout::SystemLine
        } else if self.name == String::from_str("You") {
            EntryLayout::OwnMessage
        } else {
            EntryLayout::OtherMessage
        }
    }
}

impl View for ConversationMessageManager {
    type V = Seq<Seq<char>>;

    closed spec fn view(&self) -> Seq<Seq<char>> {
        Seq::new(self.names@.len(), |i: int| self.names@[i]@)
    }
}

impl ConversationMessageManager {
    /// No name occurs twice among the names seen. Every registry that
    /// `new` made and these methods changed is well formed.
    pub open spec fn well_formed(&self) -> bool {
        self@.no_duplicates()
    }

    /// A registry that has seen no name.
    pub fn new() -> (manager: ConversationMessageManager)
        ensures
            manager@ == Seq::<Seq<char>>::empty(),
            manager.well_formed(),
    {
        let manager = ConversationMessageManager { names: Vec::new() };
        assert(manager@ =~= Seq::<Seq<char>>::empty());
        manager
    }

    /// Position of `name` among the names seen, or their number.
    fn lookup(&self, name: &String) -> (i: usize)
        ensures
            i == position(self@, name@),
            i <= self@.len(),
            self@.len() == self.names@.len(),
    {
        let mut i: usize = 0;
        while i < self.names.len() && self.names[i] != *name
            invariant
                i <= self.names@.len(),
                forall|j: int| 0 <= j < i ==> #[trigger] self@[j] != name@,
            decreases self.names@.len() - i,
        {
            assert(self@[i as int] == self.names@[i as int]@);
            i += 1;
        }
        proof {
            if i < self.names@.len() {
                assert(self@[i as int] == self.names@[i as int]@);
            }
            lemma_position_is(self@, name@, i as int);
        }
        i
    }

    /// The colour of `name`: the one it was given when it was first asked
    /// for, or, if this is the first time, the palette entry under the
    /// cursor, which then moves on.
    pub fn color_for(&mut self, name: &String) -> (color: Rgb)
        ensures
            final(self)@ == recorded(old(self)@, name@),
            color == color_of(final(self)@, name@),
            known(old(self)@, name@) ==> color == color_of(old(self)@, name@),
            !known(old(self)@, name@) ==> color == palette()[cursor(old(self)@) as int],
            forall|seen: Seq<char>|
                known(old(self)@, seen) ==> #[trigger] color_of(final(self)@, seen) == color_of(
                    old(self)@,
                    seen,
                ),
            old(self).well_formed() ==> final(self).well_formed(),
    {
        let ghost before = self@;
        let i: usize = self.lookup(name);
        proof {
            assert forall|seen: Seq<char>| known(before, seen) implies #[trigger] color_of(
                recorded(before, name@),
                seen,
            ) == color_of(before, seen) by {
                lemma_recorded(before, name@, seen);
            }
            if known(before, name@) {
                lemma_recorded(before, name@, name@);
            } else {
                lemma_first_assignment(before, name@);
            }
            if before.no_duplicates() {
                lemma_no_duplicates_kept(before, name@);
            }
        }
        if i == self.names.len() {
            let ghost pushed = self.names@.push(*name);
            assert(Seq::new(pushed.len(), |k: int| pushed[k]@) =~= before.push(name@));
            self.names.push(name.clone());
            assert(self@ =~= before.push(name@));
        }
        palette_color(i)
    }

    /// The entry of `content` said by `name`, in the colour of `name`.
    pub fn format_conversation_message(&mut self, name: String, content: String) -> (entry:
        ConversationMessage)
        ensures
            final(self)@ == recorded(old(self)@, name@),
            entry@ == entry_of(final(self)@, name@, content@),
            forall|seen: Seq<char>|
                known(old(self)@, seen) ==> #[trigger] color_of(final(self)@, seen) == color_of(
                    old(self)@,
                    seen,
                ),
            old(self).well_formed() ==> final(self).well_formed(),
    {
        let color = self.color_for(&name);
        ConversationMessage { name, color, content }
    }

    /// Builds the entry of one raw line. A line that holds `>` is a chat
    /// message: the sender stands before the first `>`, the body after it,
    /// both trimmed, and any further `>` is dropped from the body. Any other
    /// line is a line of the system.
    pub fn cm_from_string(&mut self, msg: String) -> (entry: ConversationMessage)
        ensures
            final(self)@ == names_after(old(self)@, msg@),
            entry@ == built(old(self)@, msg@),
            old(self).well_formed() ==> final(self).well_formed(),
    {
        let chars = chars_of(msg.as_str());
        let cut: usize = find_char(&chars, '>');
        if cut == chars.len() {
            ConversationMessage::system(msg)
        } else {
            let before = string_of(&chars, 0, cut);
            let name = trim(before.as_str());
            let rest = remove_char(&chars, cut + 1, '>');
            let after = string_of(&rest, 0, rest.len());
            let content = trim(after.as_str());
            assert(chars@.subrange(0, cut as int) =~= chars@.take(cut as int));
            assert(rest@.subrange(0, rest@.len() as int) =~= rest@);
            self.format_conversation_message(name, content)
        }
    }

    /// Builds the entries of `v`, in order.
    pub fn cms_from_vec(&mut self, v: Vec<String>) -> (entries: Vec<ConversationMessage>)
        ensures
            final(self)@ == names_after_all(old(self)@, lines(v)),
            entries@.len() == v@.len(),
            forall|i: int|
                0 <= i < v@.len() ==> (#[trigger] entries@[i])@ == built_all(old(self)@, lines(v))[i],
            old(self).well_formed() ==> final(self).well_formed(),
    {
        let ghost raws = lines(v);
        let ghost start = self@;
        let mut entries: Vec<ConversationMessage> = Vec::new();
        let mut i: usize = 0;
        assert(raws.take(0) =~= Seq::<Seq<char>>::empty());
        while i < v.len()
            invariant
                i <= v@.len(),
                raws == lines(v),
                raws.len() == v@.len(),
                self@ == names_after_all(start, raws.take(i as int)),
                start.no_duplicates() ==> self.well_formed(),
                entries@.len() == i,
                forall|k: int|
                    0 <= k < i ==> (#[trigger] entries@[k])@ == built_all(start, raws)[k],
            decreases v@.len() - i,
        {
            let entry = self.cm_from_string(v[i].clone());
            entries.push(entry);
            proof {
                let next = raws.take(i + 1);
                assert(next.drop_last() =~= raws.take(i as int));
                assert(next.last() == raws[i as int]);
                assert(raws[i as int] == v@[i as int]@);
            }
            i += 1;
        }
        assert(raws.take(i as int) =~= raws);
        entries
    }
}

/// The texts of `v`.
pub open spec fn lines(v: Vec<String>) -> Seq<Seq<char>> {
    Seq::new(v@.len(), |i: int| v@[i]@)
}

} // verus!
