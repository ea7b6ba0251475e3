//! Directory menus: one item for each entry of a directory listing, and the
//! text that a client receives for them.
use vstd::prelude::*;
use crate::config::Config;
use crate::path::{normalized, split_on, is_dot, keep_named, join, views};
use crate::text::{decimal, push_char, push_decimal, trim, trimmed};
use vstd::utf8::encode_utf8;

verus! {

/// One entry of a directory as the file system lists it.
pub struct Entry {
    /// The entry's file name.
    pub name: String,
    /// Whether the entry is a directory.
    pub is_dir: bool,
}

/// One line of a menu.
pub struct Item {
    /// `1` for a directory, `0` for anything else.
    pub media: u32,
    /// The text shown to the user.
    pub description: String,
    /// The path of the entry relative to the root, in forward-slash form.
    pub selector: String,
    pub host: String,
    pub port: u32,
}

/// The items of a menu, in the order in which the directory was listed.
pub struct Menu {
    pub items: Vec<Item>,
}

/// The media type of an entry.
pub open spec fn media_of(is_dir: bool) -> u32 {
    if is_dir { 1 } else { 0 }
}

/// The selector of the entry `name` of the directory that `request` named.
pub open spec fn child_selector(request: Seq<char>, name: Seq<char>) -> Seq<char> {
    normalized(trimmed(request) + seq!['/'] + name)
}

/// The item that a menu built for `request` holds for `e`.
pub open spec fn item_for(request: Seq<char>, e: Entry, config: Config, i: Item) -> bool {
    &&& i.media == media_of(e.is_dir)
    &&& i.description@ == e.name@
    &&& i.selector@ == child_selector(request, e.name@)
    &&& i.host@ == config.host@
    &&& i.port == config.port
}

/// The line of a menu item: type, description, `/` and selector, host and
/// port, separated by tabs and ended by CR LF.
pub open spec fn item_line(i: Item) -> Seq<char> {
    decimal(i.media as nat) + i.description@ + seq!['\t', '/'] + i.selector@ + seq!['\t']
        + i.host@ + seq!['\t'] + decimal(i.port as nat) + seq!['\r', '\n']
}

/// The lines of the items, one after another.
pub open spec fn item_lines(items: Seq<Item>) -> Seq<char>
    decreases items.len(),
{
    if items.len() == 0 {
        Seq::empty()
    } else {
        item_lines(items.drop_last()) + item_line(items.last())
    }
}

/// The lone `.` line that ends a menu.
pub open spec fn end_line() -> Seq<char> {
    seq!['.', '\r', '\n']
}

/// The text of a menu: its item lines and the end line.
pub open spec fn menu_text(items: Seq<Item>) -> Seq<char> {
    item_lines(items) + end_line()
}

impl Menu {
    /// A menu without items.
    pub fn new() -> (r: Menu)
        ensures
            r.items@.len() == 0,
    {
        Menu { items: Vec::new() }
    }

    /// Joins the segments of `path` with `/`, leaving out empty and `.`
    /// segments.
    pub fn normalize_path(path: &str) -> (r: String)
        ensures
            r@ == normalized(path@),
    {
        let parts = split_on(path, '/');
        let ghost all = views(parts@);
        let mut out = String::new();
        let mut any = false;
        let mut j: usize = 0;
        assert(all.take(0) =~= Seq::<Seq<char>>::empty());
        while j < parts.len()
            invariant
                all == views(parts@),
                j <= parts@.len(),
                out@ == join(keep_named(all.take(j as int))),
                any == (keep_named(all.take(j as int)).len() > 0),
            decreases parts@.len() - j,
        {
            let piece = &parts[j];
            assert(all.take(j + 1).drop_last() =~= all.take(j as int));
            assert(all.take(j + 1).last() == piece@);
            if piece.as_str().unicode_len() > 0 && !is_dot(piece) {
                let ghost kept = keep_named(all.take(j as int));
                assert(keep_named(all.take(j + 1)) == kept.push(piece@));
                assert(kept.push(piece@).drop_last() =~= kept);
                if any {
                    push_char(&mut out, '/');
                } else {
                    assert(kept.len() == 0);
                    assert(out@ =~= Seq::<char>::empty());
                }
                out.append(piece.as_str());
                any = true;
                assert(out@ =~= join(kept.push(piece@)));
            }
            j = j + 1;
        }
        assert(all.take(parts@.len() as int) =~= all);
        out
    }

    /// The menu of a directory that `request` named, from its listing: one
    /// item per entry, in the listing's order.
    pub fn from_entries(request: &str, entries: &Vec<Entry>, config: &Config) -> (r: Menu)
        ensures
            r.items@.len() == entries@.len(),
            forall|k: int|
                0 <= k < entries@.len() ==> item_for(
                    request@,
                    #[trigger] entries@[k],
                    *config,
                    r.items@[k],
                ),
    {
        let base = trim(request);
        let mut items: Vec<Item> = Vec::new();
        let mut k: usize = 0;
        while k < entries.len()
            invariant
                base@ == trimmed(request@),
                k <= entries@.len(),
                items@.len() == k,
                forall|m: int|
                    0 <= m < k ==> item_for(request@, #[trigger] entries@[m], *config, items@[m]),
            decreases entries@.len() - k,
        {
            let e = &entries[k];
            let mut child = String::from_str(base);
            push_char(&mut child, '/');
            child.append(e.name.as_str());
            assert(child@ =~= trimmed(request@) + seq!['/'] + e.name@);
            let item = Item {
                media: if e.is_dir { 1 } else { 0 },
                description: e.name.clone(),
                selector: Menu::normalize_path(child.as_str()),
                host: config.host.clone(),
                port: config.port,
            };
            items.push(item);
            k = k + 1;
        }
        Menu { items }
    }

    /// The text of the menu: one line per item, then the `.` line.
    pub fn render(&self) -> (r: String)
        ensures
            r@ == menu_text(self.items@),
    {
        let mut out = String::new();
        let mut k: usize = 0;
        assert(self.items@.take(0) =~= Seq::<Item>::empty());
        while k < self.items.len()
            invariant
                k <= self.items@.len(),
                out@ == item_lines(self.items@.take(k as int)),
            decreases self.items@.len() - k,
        {
            let item = &self.items[k];
            assert(self.items@.take(k + 1).drop_last() =~= self.items@.take(k as int));
            push_decimal(&mut out, item.media);
            out.append(item.description.as_str());
            push_char(&mut out, '\t');
            push_char(&mut out, '/');
            out.append(item.selector.as_str());
            push_char(&mut out, '\t');
            out.append(item.host.as_str());
            push_char(&mut out, '\t');
            push_decimal(&mut out, item.port);
            push_char(&mut out, '\r');
            push_char(&mut out, '\n');
            assert(out@ =~= item_lines(self.items@.take(k + 1)));
            k = k + 1;
        }
        assert(self.items@.take(k as int) =~= self.items@);
        push_char(&mut out, '.');
        push_char(&mut out, '\r');
        push_char(&mut out, '\n');
        assert(out@ =~= menu_text(self.items@));
        out
    }

    /// The bytes sent for the menu: the UTF-8 encoding of its text.
    pub fn to_bytes(&self) -> (r: Vec<u8>)
        ensures
            r@ == encode_utf8(menu_text(self.items@)),
    {
        self.render().as_str().as_bytes_vec()
    }
}

} // verus!
