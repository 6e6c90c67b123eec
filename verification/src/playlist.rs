//! Playlists: lists of ROMs with their labels and cores, sorted by label and free of
//! repeated entries.

use vstd::prelude::*;
use crate::dat_parser::{clone_opt_string, opt_text};
use crate::numbers::{hex8, push_hex8};
use crate::split::push_str;
pub use crate::playlist_builder::PlaylistBuilder;
use crate::text::{chars_of, string_of};

verus! {

/// One entry of a playlist as a mathematical value.
pub struct ItemRow {
    pub path: Seq<char>,
    pub label: Seq<char>,
    pub core_path: Option<Seq<char>>,
    pub core_name: Option<Seq<char>>,
    pub crc32: Option<Seq<char>>,
    pub db_name: Option<Seq<char>>,
}

/// One entry of a playlist.
#[derive(Debug)]
pub struct PlaylistItem {
    pub path: String,
    pub label: String,
    pub core_path: Option<String>,
    pub core_name: Option<String>,
    pub crc32: Option<String>,
    pub db_name: Option<String>,
}

impl View for PlaylistItem {
    type V = ItemRow;

    open spec fn view(&self) -> ItemRow {
        ItemRow {
            path: self.path@,
            label: self.label@,
            core_path: opt_text(self.core_path),
            core_name: opt_text(self.core_name),
            crc32: opt_text(self.crc32),
            db_name: opt_text(self.db_name),
        }
    }
}

impl Clone for PlaylistItem {
    fn clone(&self) -> (r: Self)
        ensures
            r@ == self@,
    {
        PlaylistItem {
            path: self.path.clone(),
            label: self.label.clone(),
            core_path: clone_opt_string(&self.core_path),
            core_name: clone_opt_string(&self.core_name),
            crc32: clone_opt_string(&self.crc32),
            db_name: clone_opt_string(&self.db_name),
        }
    }
}

/// The checksum `crc32` as a playlist writes it: eight upper-case hexadecimal
/// digits, then `|crc`.
pub open spec fn crc_tag(crc32: u32) -> Seq<char> {
    hex8(crc32) + "|crc"@
}

impl PlaylistItem {
    /// An entry with a path and a label and nothing else.
    pub fn new(path: String, label: String) -> (r: Self)
        ensures
            r@ == (ItemRow {
                path: path@,
                label: label@,
                core_path: None,
                core_name: None,
                crc32: None,
                db_name: None,
            }),
    {
        PlaylistItem {
            path: path,
            label: label,
            core_path: None,
            core_name: None,
            crc32: None,
            db_name: None,
        }
    }

    /// The same entry with a core.
    pub fn with_core(self, core_path: String, core_name: String) -> (r: Self)
        ensures
            r@ == (ItemRow {
                core_path: Some(core_path@),
                core_name: Some(core_name@),
                ..self@
            }),
    {
        let mut r = self;
        r.core_path = Some(core_path);
        r.core_name = Some(core_name);
        r
    }

    /// The same entry with a checksum.
    pub fn with_crc32(self, crc32: u32) -> (r: Self)
        ensures
            r@ == (ItemRow { crc32: Some(crc_tag(crc32)), ..self@ }),
    {
        let mut r = self;
        let mut tag: Vec<char> = Vec::new();
        push_hex8(&mut tag, crc32);
        push_str(&mut tag, "|crc");
        assert(tag@ =~= crc_tag(crc32));
        r.crc32 = Some(string_of(tag.as_slice()));
        r
    }

    /// The same entry with the name of its database.
    pub fn with_db_name(self, db_name: String) -> (r: Self)
        ensures
            r@ == (ItemRow { db_name: Some(db_name@), ..self@ }),
    {
        let mut r = self;
        r.db_name = Some(db_name);
        r
    }
}

/// The entries of a list as mathematical values.
pub open spec fn item_rows(v: Seq<PlaylistItem>) -> Seq<ItemRow> {
    v.map_values(|i: PlaylistItem| i@)
}

/// A playlist as a mathematical value.
pub struct PlaylistRow {
    pub version: Seq<char>,
    pub default_core_path: Option<Seq<char>>,
    pub default_core_name: Option<Seq<char>>,
    pub label_display_mode: u32,
    pub right_thumbnail_mode: u32,
    pub left_thumbnail_mode: u32,
    pub sort_mode: u32,
    pub items: Seq<ItemRow>,
}

/// A playlist.
#[derive(Debug)]
pub struct Playlist {
    pub version: String,
    pub default_core_path: Option<String>,
    pub default_core_name: Option<String>,
    pub label_display_mode: u32,
    pub right_thumbnail_mode: u32,
    pub left_thumbnail_mode: u32,
    pub sort_mode: u32,
    pub items: Vec<PlaylistItem>,
}

impl View for Playlist {
    type V = PlaylistRow;

    open spec fn view(&self) -> PlaylistRow {
        PlaylistRow {
            version: self.version@,
            default_core_path: opt_text(self.default_core_path),
            default_core_name: opt_text(self.default_core_name),
            label_display_mode: self.label_display_mode,
            right_thumbnail_mode: self.right_thumbnail_mode,
            left_thumbnail_mode: self.left_thumbnail_mode,
            sort_mode: self.sort_mode,
            items: item_rows(self.items@),
        }
    }
}

/// Whether the text `a` comes before the text `b` or is `b`, character by
/// character in the order of the code points; a text comes after its beginnings.
pub open spec fn text_le(a: Seq<char>, b: Seq<char>) -> bool
    decreases a.len(),
{
    if a.len() == 0 {
        true
    } else if b.len() == 0 {
        false
    } else if a[0] != b[0] {
        (a[0] as u32) < (b[0] as u32)
    } else {
        text_le(a.drop_first(), b.drop_first())
    }
}

/// Whether the text `a` comes before the text `b` or is `b`.
pub fn text_before_or_same(a: &[char], b: &[char]) -> (r: bool)
    ensures
        r == text_le(a@, b@),
{
    let mut i: usize = 0;
    assert(a@.skip(0) == a@ && b@.skip(0) == b@);
    while i < a.len() && i < b.len()
        invariant
            i <= a.len(),
            i <= b.len(),
            text_le(a@, b@) == text_le(a@.skip(i as int), b@.skip(i as int)),
        decreases a.len() - i,
    {
        assert(a@.skip(i as int)[0] == a@[i as int] && b@.skip(i as int)[0] == b@[i as int]);
        if a[i] != b[i] {
            return (a[i] as u32) < (b[i] as u32);
        }
        assert(a@.skip(i as int).drop_first() == a@.skip(i + 1));
        assert(b@.skip(i as int).drop_first() == b@.skip(i + 1));
        i += 1;
    }
    i >= a.len()
}

/// `t` with `x` put in after the last entry whose label does not come after that
/// of `x`, looking from the end.
pub open spec fn put_in(t: Seq<ItemRow>, x: ItemRow) -> Seq<ItemRow>
    decreases t.len(),
{
    if t.len() == 0 {
        seq![x]
    } else if text_le(t.last().label, x.label) {
        t.push(x)
    } else {
        put_in(t.drop_last(), x).push(t.last())
    }
}

/// The entries sorted by label; entries with one label keep their order.
pub open spec fn sorted_by_label(s: Seq<ItemRow>) -> Seq<ItemRow>
    decreases s.len(),
{
    if s.len() == 0 {
        Seq::empty()
    } else {
        put_in(sorted_by_label(s.drop_last()), s.last())
    }
}

/// Where `x` goes when it is put into `t`.
pub open spec fn put_pos(t: Seq<ItemRow>, x: ItemRow) -> int
    decreases t.len(),
{
    if t.len() == 0 {
        0
    } else if text_le(t.last().label, x.label) {
        t.len() as int
    } else {
        put_pos(t.drop_last(), x)
    }
}

/// Putting in is inserting at the position found.
pub proof fn lemma_put_in(t: Seq<ItemRow>, x: ItemRow)
    ensures
        0 <= put_pos(t, x) <= t.len(),
        put_in(t, x) == t.insert(put_pos(t, x), x),
    decreases t.len(),
{
    if t.len() == 0 {
        assert(seq![x] =~= t.insert(0, x));
    } else if text_le(t.last().label, x.label) {
        assert(t.push(x) =~= t.insert(t.len() as int, x));
    } else {
        lemma_put_in(t.drop_last(), x);
        let p = put_pos(t.drop_last(), x);
        assert(t.drop_last().insert(p, x).push(t.last()) =~= t.insert(p, x));
    }
}

/// Whether two entries stand for the same ROM: same path and same checksum.
pub open spec fn same_rom(a: ItemRow, b: ItemRow) -> bool {
    a.path == b.path && a.crc32 == b.crc32
}

/// The entries without those that stand for a ROM that an earlier entry stands
/// for.
pub open spec fn without_repeats(s: Seq<ItemRow>) -> Seq<ItemRow>
    decreases s.len(),
{
    if s.len() == 0 {
        Seq::empty()
    } else {
        let d = without_repeats(s.drop_last());
        if exists|i: int| 0 <= i < d.len() && same_rom(#[trigger] d[i], s.last()) {
            d
        } else {
            d.push(s.last())
        }
    }
}

/// Whether two optional strings hold the same text, or both nothing.
pub fn same_opt_text(a: &Option<String>, b: &Option<String>) -> (r: bool)
    ensures
        r == (opt_text(*a) == opt_text(*b)),
{
    match a {
        Some(x) => match b {
            Some(y) => *x == *y,
            None => false,
        },
        None => b.is_none(),
    }
}

impl Playlist {
    /// An empty playlist of version 1.5.
    pub fn new() -> (p: Self)
        ensures
            p@ == (PlaylistRow {
                version: "1.5"@,
                default_core_path: None,
                default_core_name: None,
                label_display_mode: 0,
                right_thumbnail_mode: 0,
                left_thumbnail_mode: 0,
                sort_mode: 0,
                items: Seq::empty(),
            }),
    {
        let p = Playlist {
            version: "1.5".to_owned(),
            default_core_path: None,
            default_core_name: None,
            label_display_mode: 0,
            right_thumbnail_mode: 0,
            left_thumbnail_mode: 0,
            sort_mode: 0,
            items: Vec::new(),
        };
        assert(p@.items =~= Seq::<ItemRow>::empty());
        p
    }

    /// The same playlist with a default core.
    pub fn with_default_core(self, core_path: String, core_name: String) -> (p: Self)
        ensures
            p@ == (PlaylistRow {
                default_core_path: Some(core_path@),
                default_core_name: Some(core_name@),
                ..self@
            }),
    {
        let mut p = self;
        p.default_core_path = Some(core_path);
        p.default_core_name = Some(core_name);
        p
    }

    /// Adds an entry at the end.
    pub fn add_item(&mut self, item: PlaylistItem)
        ensures
            final(self)@ == (PlaylistRow { items: old(self)@.items.push(item@), ..old(self)@ }),
    {
        let ghost before = item_rows(self.items@);
        self.items.push(item);
        assert(item_rows(self.items@) =~= before.push(item@));
    }

    /// Sorts the entries by label; entries with one label keep their order.
    pub fn sort_by_label(&mut self)
        ensures
            final(self)@ == (PlaylistRow { items: sorted_by_label(old(self)@.items), ..old(self)@ }),
    {
        let mut sorted: Vec<PlaylistItem> = Vec::new();
        let ghost all = item_rows(self.items@);
        let mut i: usize = 0;
        assert(all.take(0) =~= Seq::<ItemRow>::empty());
        assert(item_rows(sorted@) =~= Seq::<ItemRow>::empty());
        while i < self.items.len()
            invariant
                i <= self.items.len(),
                *self == *old(self),
                all == item_rows(self.items@),
                item_rows(sorted@) == sorted_by_label(all.take(i as int)),
            decreases self.items.len() - i,
        {
            let ghost t = item_rows(sorted@);
            assert(all.take(i + 1).drop_last() == all.take(i as int));
            assert(all.take(i + 1).last() == self.items@[i as int]@);
            let x = self.items[i].clone();
            let label = chars_of(x.label.as_str());
            let mut pos: usize = sorted.len();
            assert(t.take(pos as int) == t);
            while pos > 0 && !text_before_or_same(
                chars_of(sorted[pos - 1].label.as_str()).as_slice(),
                label.as_slice(),
            )
                invariant
                    pos <= sorted.len(),
                    t == item_rows(sorted@),
                    label@ == x@.label,
                    put_pos(t, x@) == put_pos(t.take(pos as int), x@),
                decreases pos,
            {
                assert(t.take(pos as int).last() == sorted@[pos - 1]@);
                assert(t.take(pos as int).drop_last() == t.take(pos - 1));
                pos -= 1;
            }
            proof {
                if pos > 0 {
                    assert(t.take(pos as int).last() == sorted@[pos - 1]@);
                }
                lemma_put_in(t, x@);
            }
            sorted.insert(pos, x);
            assert(item_rows(sorted@) =~= t.insert(pos as int, x@));
            i += 1;
        }
        assert(all.take(all.len() as int) == all);
        self.items = sorted;
    }

    /// Drops every entry that stands for a ROM that an earlier entry stands for.
    pub fn deduplicate(&mut self)
        ensures
            final(self)@ == (PlaylistRow { items: without_repeats(old(self)@.items), ..old(self)@ }),
    {
        let mut kept: Vec<PlaylistItem> = Vec::new();
        let ghost all = item_rows(self.items@);
        let mut i: usize = 0;
        assert(all.take(0) =~= Seq::<ItemRow>::empty());
        assert(item_rows(kept@) =~= Seq::<ItemRow>::empty());
        while i < self.items.len()
            invariant
                i <= self.items.len(),
                *self == *old(self),
                all == item_rows(self.items@),
                item_rows(kept@) == without_repeats(all.take(i as int)),
            decreases self.items.len() - i,
        {
            let ghost d = item_rows(kept@);
            assert(all.take(i + 1).drop_last() == all.take(i as int));
            assert(all.take(i + 1).last() == self.items@[i as int]@);
            let x = &self.items[i];
            let mut seen = false;
            let mut k: usize = 0;
            while k < kept.len() && !seen
                invariant
                    k <= kept.len(),
                    d == item_rows(kept@),
                    !seen ==> forall|j: int| 0 <= j < k ==> !same_rom(#[trigger] d[j], x@),
                    seen ==> exists|j: int| 0 <= j < d.len() && same_rom(#[trigger] d[j], x@),
                decreases kept.len() - k + if seen { 0int } else { 1int },
            {
                assert(d[k as int] == kept@[k as int]@);
                if kept[k].path == x.path && same_opt_text(&kept[k].crc32, &x.crc32) {
                    seen = true;
                } else {
                    k += 1;
                }
            }
            if !seen {
                kept.push(x.clone());
                assert(item_rows(kept@) =~= d.push(x@));
            }
            i += 1;
        }
        assert(all.take(all.len() as int) == all);
        self.items = kept;
    }
}

impl Clone for Playlist {
    fn clone(&self) -> (r: Self)
        ensures
            r@ == self@,
    {
        let mut items: Vec<PlaylistItem> = Vec::new();
        let mut i: usize = 0;
        while i < self.items.len()
            invariant
                i <= self.items.len(),
                item_rows(items@) == item_rows(self.items@).take(i as int),
            decreases self.items.len() - i,
        {
            let ghost before = item_rows(items@);
            let x = self.items[i].clone();
            items.push(x);
            assert(item_rows(items@) =~= before.push(x@));
            assert(item_rows(self.items@).take(i + 1) =~= before.push(x@));
            i += 1;
        }
        assert(item_rows(self.items@).take(self.items@.len() as int) == item_rows(self.items@));
        Playlist {
            version: self.version.clone(),
            default_core_path: clone_opt_string(&self.default_core_path),
            default_core_name: clone_opt_string(&self.default_core_name),
            label_display_mode: self.label_display_mode,
            right_thumbnail_mode: self.right_thumbnail_mode,
            left_thumbnail_mode: self.left_thumbnail_mode,
            sort_mode: self.sort_mode,
            items: items,
        }
    }
}

impl Default for Playlist {
    fn default() -> (p: Self)
        ensures
            p@ == (PlaylistRow {
                version: "1.5"@,
                default_core_path: None,
                default_core_name: None,
                label_display_mode: 0,
                right_thumbnail_mode: 0,
                left_thumbnail_mode: 0,
                sort_mode: 0,
                items: Seq::empty(),
            }),
    {
        Playlist::new()
    }
}

} // verus!
