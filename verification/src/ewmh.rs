//! Desktops and windows as the window manager publishes them, and the requests
//! that ask it to change them.

#[allow(unused_imports)]
use crate::property::{
    bytes_of, law_answers_hold_words, law_words_are_read_back, read_u32, read_u32_array,
    word_bytes, words_in, ByteOrder, PropertyReply, PropertyRequest,
};
use crate::text::{decimal, decimal_text, from_utf8_lossy, lossy_text, push_all};
use crate::wm::WmOp;
use crate::x11::{
    atom_atom, cardinal_atom, string_atom, window_atom, wm_class_atom, wm_name_atom,
};
use vstd::prelude::*;
#[allow(unused_imports)]
use vstd::utf8::{
    decode_utf8, encode_utf8, encode_utf8_decode_utf8, encode_utf8_valid_utf8, valid_utf8,
};

verus! {

/// The desktop of a window that is on all of them.
pub const ALL_DESKTOPS: u32 = u32::MAX;

/// The source of requests that come from a pager.
pub const SOURCE_PAGER: u32 = 2;

/// The longest property that is asked for, in words.
pub const WHOLE: u32 = 0x3fff_ffff;

/// The atoms that the popup uses, as the server numbered them.
#[derive(Debug, Clone, Copy, PartialEq, Eq, Structural)]
pub struct Atoms {
    pub net_number_of_desktops: u32,
    pub net_current_desktop: u32,
    pub net_desktop_names: u32,
    pub net_client_list: u32,
    pub net_client_list_stacking: u32,
    pub net_active_window: u32,
    pub net_wm_desktop: u32,
    pub net_wm_name: u32,
    pub net_wm_icon: u32,
    pub net_wm_window_type: u32,
    pub net_wm_window_type_normal: u32,
    pub net_wm_state: u32,
    pub net_wm_state_skip_taskbar: u32,
    pub net_close_window: u32,
    pub net_wm_user_time: u32,
    pub utf8_string: u32,
}

/// The names of the atoms, in the order of their fields.
pub open spec fn atom_names() -> Seq<Seq<char>> {
    seq![
        "_NET_NUMBER_OF_DESKTOPS"@,
        "_NET_CURRENT_DESKTOP"@,
        "_NET_DESKTOP_NAMES"@,
        "_NET_CLIENT_LIST"@,
        "_NET_CLIENT_LIST_STACKING"@,
        "_NET_ACTIVE_WINDOW"@,
        "_NET_WM_DESKTOP"@,
        "_NET_WM_NAME"@,
        "_NET_WM_ICON"@,
        "_NET_WM_WINDOW_TYPE"@,
        "_NET_WM_WINDOW_TYPE_NORMAL"@,
        "_NET_WM_STATE"@,
        "_NET_WM_STATE_SKIP_TASKBAR"@,
        "_NET_CLOSE_WINDOW"@,
        "_NET_WM_USER_TIME"@,
        "UTF8_STRING"@,
    ]
}

impl Atoms {
    /// The names to ask the server for.
    pub fn names() -> (r: Vec<&'static str>)
        ensures
            r@.map_values(|s: &str| s@) == atom_names(),
    {
        let r: Vec<&'static str> = vec![
            "_NET_NUMBER_OF_DESKTOPS",
            "_NET_CURRENT_DESKTOP",
            "_NET_DESKTOP_NAMES",
            "_NET_CLIENT_LIST",
            "_NET_CLIENT_LIST_STACKING",
            "_NET_ACTIVE_WINDOW",
            "_NET_WM_DESKTOP",
            "_NET_WM_NAME",
            "_NET_WM_ICON",
            "_NET_WM_WINDOW_TYPE",
            "_NET_WM_WINDOW_TYPE_NORMAL",
            "_NET_WM_STATE",
            "_NET_WM_STATE_SKIP_TASKBAR",
            "_NET_CLOSE_WINDOW",
            "_NET_WM_USER_TIME",
            "UTF8_STRING",
        ];
        assert(r@.map_values(|s: &str| s@) =~= atom_names());
        r
    }

    /// The atoms, given the server's numbers for `names`, in the same order.
    pub fn new(ids: &[u32]) -> (r: Self)
        requires
            ids@.len() == atom_names().len(),
        ensures
            r == (Atoms {
                net_number_of_desktops: ids@[0],
                net_current_desktop: ids@[1],
                net_desktop_names: ids@[2],
                net_client_list: ids@[3],
                net_client_list_stacking: ids@[4],
                net_active_window: ids@[5],
                net_wm_desktop: ids@[6],
                net_wm_name: ids@[7],
                net_wm_icon: ids@[8],
                net_wm_window_type: ids@[9],
                net_wm_window_type_normal: ids@[10],
                net_wm_state: ids@[11],
                net_wm_state_skip_taskbar: ids@[12],
                net_close_window: ids@[13],
                net_wm_user_time: ids@[14],
                utf8_string: ids@[15],
            }),
    {
        Atoms {
            net_number_of_desktops: ids[0],
            net_current_desktop: ids[1],
            net_desktop_names: ids[2],
            net_client_list: ids[3],
            net_client_list_stacking: ids[4],
            net_active_window: ids[5],
            net_wm_desktop: ids[6],
            net_wm_name: ids[7],
            net_wm_icon: ids[8],
            net_wm_window_type: ids[9],
            net_wm_window_type_normal: ids[10],
            net_wm_state: ids[11],
            net_wm_state_skip_taskbar: ids[12],
            net_close_window: ids[13],
            net_wm_user_time: ids[14],
            utf8_string: ids[15],
        }
    }
}

#[derive(Debug, Clone)]
pub struct DesktopInfo {
    pub index: u32,
    pub name: String,
}

#[derive(Debug, Clone)]
pub struct WindowInfo {
    pub id: u32,
    /// `ALL_DESKTOPS` marks a sticky window.
    pub desktop: u32,
    pub title: String,
    /// The class part of `WM_CLASS`, shown as the program's name.
    pub class: String,
    /// Contents of `_NET_WM_ICON`.
    pub icon: Option<Vec<u32>>,
}

/// What there is to ask.
#[derive(Debug, Clone, Copy, PartialEq, Eq, Structural)]
pub enum Query {
    NumberOfDesktops,
    CurrentDesktop,
    DesktopNames,
    ActiveWindow,
    ClientListStacking,
    ClientList,
    WindowState { window: u32 },
    WindowType { window: u32 },
    WindowDesktop { window: u32 },
    /// The title in UTF-8.
    NetName { window: u32 },
    /// The title in the older encoding.
    WmName { window: u32 },
    Class { window: u32 },
    Icon { window: u32 },
}

/// A message to the window manager about a window.
#[derive(Debug, Clone, Copy, PartialEq, Eq)]
pub struct ClientMessage {
    /// The window to which the message is sent.
    pub destination: u32,
    /// The window that it is about.
    pub window: u32,
    pub message_type: u32,
    pub data: (u32, u32, u32, u32, u32),
}

/// A request to the server.
#[derive(Debug)]
pub enum Request {
    Message(ClientMessage),
    /// Put a window on top of its siblings.
    StackAbove { window: u32 },
    /// Replace a property, whose `count` items have `format` bits each.
    SetProperty {
        window: u32,
        property: u32,
        type_: u32,
        format: u8,
        count: u32,
        data: Vec<u8>,
    },
}

/// What the window manager is asked, and how its answers are read.
#[derive(Debug, Clone, Copy, PartialEq, Eq, Structural)]
pub struct Ewmh {
    pub root: u32,
    pub atoms: Atoms,
    pub order: ByteOrder,
}

impl Ewmh {
    pub fn new(root: u32, atoms: Atoms, order: ByteOrder) -> (r: Self)
        ensures
            r == (Ewmh { root, atoms, order }),
    {
        Ewmh { root, atoms, order }
    }

    /// The property request for a question.
    pub open spec fn question(self, q: Query) -> PropertyRequest {
        let a = self.atoms;
        let (window, property, type_, length) = match q {
            Query::NumberOfDesktops => (self.root, a.net_number_of_desktops, 6u32, 4u32),
            Query::CurrentDesktop => (self.root, a.net_current_desktop, 6, 4),
            Query::DesktopNames => (self.root, a.net_desktop_names, a.utf8_string, WHOLE),
            Query::ActiveWindow => (self.root, a.net_active_window, 33, 4),
            Query::ClientListStacking => (self.root, a.net_client_list_stacking, 33, WHOLE),
            Query::ClientList => (self.root, a.net_client_list, 33, WHOLE),
            Query::WindowState { window } => (window, a.net_wm_state, 4, 1024),
            Query::WindowType { window } => (window, a.net_wm_window_type, 4, 1024),
            Query::WindowDesktop { window } => (window, a.net_wm_desktop, 6, 4),
            Query::NetName { window } => (window, a.net_wm_name, a.utf8_string, WHOLE),
            Query::WmName { window } => (window, 39, 31, WHOLE),
            Query::Class { window } => (window, 67, 31, 1024),
            Query::Icon { window } => (window, a.net_wm_icon, 6, WHOLE),
        };
        PropertyRequest { window, property, type_, length }
    }

    /// The property request for a question.
    pub fn request(&self, q: Query) -> (r: PropertyRequest)
        ensures
            r == self.question(q),
    {
        let a = self.atoms;
        let root = self.root;
        let (window, property, type_, length): (u32, u32, u32, u32) = match q {
            Query::NumberOfDesktops => (root, a.net_number_of_desktops, cardinal_atom(), 4),
            Query::CurrentDesktop => (root, a.net_current_desktop, cardinal_atom(), 4),
            Query::DesktopNames => (root, a.net_desktop_names, a.utf8_string, WHOLE),
            Query::ActiveWindow => (root, a.net_active_window, window_atom(), 4),
            Query::ClientListStacking => (root, a.net_client_list_stacking, window_atom(), WHOLE),
            Query::ClientList => (root, a.net_client_list, window_atom(), WHOLE),
            Query::WindowState { window } => (window, a.net_wm_state, atom_atom(), 1024),
            Query::WindowType { window } => (window, a.net_wm_window_type, atom_atom(), 1024),
            Query::WindowDesktop { window } => (window, a.net_wm_desktop, cardinal_atom(), 4),
            Query::NetName { window } => (window, a.net_wm_name, a.utf8_string, WHOLE),
            Query::WmName { window } => (window, wm_name_atom(), string_atom(), WHOLE),
            Query::Class { window } => (window, wm_class_atom(), string_atom(), 1024),
            Query::Icon { window } => (window, a.net_wm_icon, cardinal_atom(), WHOLE),
        };
        PropertyRequest { window, property, type_, length }
    }

    /// How many desktops there are; one if the answer does not say.
    pub fn number_of_desktops(&self, reply: &PropertyReply) -> (n: u32)
        requires
            reply.wf(),
        ensures
            n == match reply.first_word(self.order) {
                Some(w) => w,
                None => 1,
            },
    {
        match read_u32(reply, self.order) {
            Some(w) => w,
            None => 1,
        }
    }

    /// The current desktop; the first one if the answer does not say.
    pub fn current_desktop(&self, reply: &PropertyReply) -> (d: u32)
        requires
            reply.wf(),
        ensures
            d == match reply.first_word(self.order) {
                Some(w) => w,
                None => 0,
            },
    {
        match read_u32(reply, self.order) {
            Some(w) => w,
            None => 0,
        }
    }

    /// The active window, if there is one.
    pub fn active_window(&self, reply: &PropertyReply) -> (w: Option<u32>)
        requires
            reply.wf(),
        ensures
            w == match reply.first_word(self.order) {
                Some(w) if w != 0 => Some(w),
                _ => None,
            },
    {
        match read_u32(reply, self.order) {
            Some(w) => if w != 0 {
                Some(w)
            } else {
                None
            },
            None => None,
        }
    }

    /// The windows there are. The list in stacking order, topmost last, is
    /// preferred; `None` says that it is empty and that the other list is
    /// wanted too.
    pub fn client_list(&self, stacking: &PropertyReply, plain: Option<&PropertyReply>) -> (r:
        Option<Vec<u32>>)
        ensures
            ({
                let s = stacking.words(self.order);
                if s.len() > 0 {
                    r matches Some(list) && list@ == s
                } else {
                    match plain {
                        Some(p) => r matches Some(list) && list@ == p.words(self.order),
                        None => r is None,
                    }
                }
            }),
    {
        let list = read_u32_array(stacking, self.order);
        if list.len() > 0 {
            return Some(list);
        }
        match plain {
            Some(p) => Some(read_u32_array(p, self.order)),
            None => None,
        }
    }
}

/// The pieces between the zero bytes of a byte string, in order. There is
/// always at least one.
pub open spec fn pieces(bytes: Seq<u8>) -> Seq<Seq<u8>>
    decreases bytes.len(),
{
    if bytes.len() == 0 {
        seq![Seq::empty()]
    } else {
        let before = pieces(bytes.drop_last());
        if bytes.last() == 0 {
            before.push(Seq::empty())
        } else {
            before.drop_last().push(before.last().push(bytes.last()))
        }
    }
}

/// The texts of a list of strings.
pub open spec fn texts(v: Seq<String>) -> Seq<Seq<char>> {
    v.map_values(|s: String| s@)
}

/// A way to read bytes as text.
pub type Reading = spec_fn(Seq<u8>) -> Seq<char>;

/// Reads well-formed UTF-8 as it is, and anything else with replacement
/// characters.
pub open spec fn lossy() -> Reading {
    |bytes: Seq<u8>| lossy_text(bytes)
}

/// Reads well-formed UTF-8.
pub open spec fn strict() -> Reading {
    |bytes: Seq<u8>| decode_utf8(bytes)
}

/// The names in a list of pieces, where an empty piece after an empty name is
/// left out.
pub open spec fn names_in(list: Seq<Seq<u8>>, read: Reading) -> Seq<Seq<char>>
    decreases list.len(),
{
    if list.len() == 0 {
        Seq::empty()
    } else {
        let before = names_in(list.drop_last(), read);
        if list.last().len() == 0 && before.len() > 0 && before.last().len() == 0 {
            before
        } else {
            before.push(read(list.last()))
        }
    }
}

/// `names` without an empty name at the end.
pub open spec fn without_empty_end(names: Seq<Seq<char>>) -> Seq<Seq<char>> {
    if names.len() > 0 && names.last().len() == 0 {
        names.drop_last()
    } else {
        names
    }
}

/// The desktop names in a byte string: they are separated by zero bytes, and
/// the zero byte at the very end starts no further name.
pub open spec fn desktop_names_in(bytes: Seq<u8>, read: Reading) -> Seq<Seq<char>> {
    without_empty_end(names_in(pieces(bytes), read))
}

/// Whether all pieces are well-formed UTF-8.
pub open spec fn all_valid(list: Seq<Seq<u8>>) -> bool {
    forall|i: int| 0 <= i < list.len() ==> valid_utf8(#[trigger] list[i])
}

proof fn lemma_pieces_nonempty(bytes: Seq<u8>)
    ensures
        pieces(bytes).len() >= 1,
    decreases bytes.len(),
{
    if bytes.len() > 0 {
        lemma_pieces_nonempty(bytes.drop_last());
    }
}

/// The bytes of a list of pieces.
pub open spec fn piece_bytes(v: Seq<Vec<u8>>) -> Seq<Seq<u8>> {
    v.map_values(|b: Vec<u8>| b@)
}

fn split_pieces(bytes: &Vec<u8>) -> (r: Vec<Vec<u8>>)
    ensures
        piece_bytes(r@) == pieces(bytes@),
{
    let mut out: Vec<Vec<u8>> = Vec::new();
    let mut cur: Vec<u8> = Vec::new();
    let mut i: usize = 0;
    assert(bytes@.take(0) =~= Seq::<u8>::empty());
    assert(piece_bytes(out@).push(cur@) =~= pieces(bytes@.take(0)));
    while i < bytes.len()
        invariant
            i <= bytes@.len(),
            piece_bytes(out@).push(cur@) == pieces(bytes@.take(i as int)),
        decreases bytes@.len() - i,
    {
        let ghost before = piece_bytes(out@);
        let ghost last = cur@;
        assert(bytes@.take(i + 1).drop_last() =~= bytes@.take(i as int));
        let b = bytes[i];
        assert(before.push(last).drop_last() =~= before);
        if b == 0 {
            out.push(cur);
            cur = Vec::new();
            assert(piece_bytes(out@) =~= before.push(last));
            assert(piece_bytes(out@).push(cur@) =~= before.push(last).push(Seq::empty()));
        } else {
            cur.push(b);
            assert(piece_bytes(out@).push(cur@) =~= before.push(last.push(b)));
        }
        i += 1;
    }
    assert(bytes@.take(i as int) =~= bytes@);
    let ghost before = piece_bytes(out@);
    let ghost last = cur@;
    out.push(cur);
    assert(piece_bytes(out@) =~= before.push(last));
    out
}

/// The name of a desktop without one: its number, counted from one.
pub open spec fn numbered_name(index: int) -> Seq<char> {
    "Desktop "@ + decimal_text((index + 1) as nat)
}

/// The name of a desktop without one.
pub fn number_name(index: u32) -> (r: String)
    requires
        index < u32::MAX,
    ensures
        r@ == numbered_name(index as int),
{
    let mut s: String = "Desktop ".to_string();
    push_all(&mut s, decimal(index + 1).as_str());
    s
}

impl Ewmh {
    /// The desktop names, as far as the window manager gives any.
    pub fn desktop_names(&self, reply: &PropertyReply) -> (r: Vec<String>)
        ensures
            texts(r@) == if reply.value_len == 0 {
                Seq::empty()
            } else {
                desktop_names_in(reply.value@, lossy())
            },
            reply.value_len > 0 && all_valid(pieces(reply.value@)) ==> texts(r@)
                == desktop_names_in(reply.value@, strict()),
            reply.value_len > 0 && reply.value@.len() > 0 && reply.value@.last() == 0 ==> texts(r@)
                == desktop_names_in(reply.value@.drop_last(), lossy()),
    {
        let mut out: Vec<String> = Vec::new();
        if reply.value_len == 0 {
            assert(texts(out@) =~= Seq::empty());
            return out;
        }
        let list = split_pieces(&reply.value);
        let ghost all = piece_bytes(list@);
        let mut i: usize = 0;
        assert(all.take(0) =~= Seq::<Seq<u8>>::empty());
        assert(texts(out@) =~= names_in(all.take(0), lossy()));
        assert(texts(out@) =~= names_in(all.take(0), strict()));
        while i < list.len()
            invariant
                i <= list@.len(),
                all == piece_bytes(list@),
                texts(out@) == names_in(all.take(i as int), lossy()),
                all_valid(all) ==> texts(out@) == names_in(all.take(i as int), strict()),
                out@.len() > 0 && out@.last()@.len() == 0 ==> lossy_text(Seq::empty()).len() == 0,
                i > 0 && all[i - 1].len() == 0 ==> lossy_text(Seq::empty()).len() == 0,
            decreases list@.len() - i,
        {
            let ghost before = texts(out@);
            assert(all.take(i + 1).drop_last() =~= all.take(i as int));
            assert(all.take(i + 1).last() == list@[i as int]@);
            let n = out.len();
            assert(n > 0 ==> before.last() == out@[n - 1]@);
            let repeated = list[i].len() == 0 && n > 0 && out[n - 1].as_str().is_empty();
            assert(all[i as int] == list@[i as int]@);
            if !repeated {
                out.push(from_utf8_lossy(list[i].as_slice()));
                assert(all[i as int].len() == 0 ==> all[i as int] =~= Seq::<u8>::empty());
                assert(texts(out@) =~= before.push(lossy_text(list@[i as int]@)));
            }
            i += 1;
        }
        assert(all.take(i as int) =~= all);
        let n = out.len();
        let ghost before = texts(out@);
        assert(n > 0 ==> before.last() == out@[n - 1]@);
        if n > 0 && out[n - 1].as_str().is_empty() {
            out.pop();
            assert(texts(out@) =~= before.drop_last());
        }
        proof {
            let bytes = reply.value@;
            if bytes.len() > 0 && bytes.last() == 0 {
                lemma_pieces_nonempty(bytes);
                law_final_zero_byte_starts_no_name(bytes.drop_last(), lossy());
                assert(bytes.drop_last().push(0) =~= bytes);
            }
        }
        out
    }

    /// The desktops, given how many there are and the names there are.
    pub fn desktops(n: u32, names: &Vec<String>) -> (r: Vec<DesktopInfo>)
        ensures
            r@.len() == n,
            forall|i: int|
                0 <= i < n ==> (#[trigger] r@[i]).index == i && r@[i].name@ == if i < names@.len() {
                    names@[i]@
                } else {
                    numbered_name(i)
                },
    {
        let mut out: Vec<DesktopInfo> = Vec::new();
        let mut i: u32 = 0;
        while i < n
            invariant
                i <= n,
                out@.len() == i,
                forall|k: int|
                    0 <= k < i ==> (#[trigger] out@[k]).index == k && out@[k].name@ == if k
                        < names@.len() {
                        names@[k]@
                    } else {
                        numbered_name(k)
                    },
            decreases n - i,
        {
            let name = if (i as usize) < names.len() {
                names[i as usize].clone()
            } else {
                number_name(i)
            };
            out.push(DesktopInfo { index: i, name });
            i += 1;
        }
        out
    }

    /// The desktop in a window's answer; the first one if it does not say.
    pub open spec fn desktop_in(self, reply: PropertyReply) -> u32 {
        match reply.first_word(self.order) {
            Some(w) => w,
            None => 0,
        }
    }

    pub fn window_desktop(&self, reply: &PropertyReply) -> (d: u32)
        requires
            reply.wf(),
        ensures
            d == self.desktop_in(*reply),
    {
        match read_u32(reply, self.order) {
            Some(w) => w,
            None => 0,
        }
    }

    /// The title in a window's answer; `None` if there is none and the older
    /// property is to be asked for.
    pub fn window_title(&self, reply: &PropertyReply) -> (r: Option<String>)
        ensures
            r is Some <==> reply.value_len > 0,
            r matches Some(t) ==> t@ == lossy_text(reply.value@),
            r matches Some(t) ==> valid_utf8(reply.value@) ==> t@ == decode_utf8(reply.value@),
    {
        if reply.value_len > 0 {
            Some(from_utf8_lossy(reply.value.as_slice()))
        } else {
            None
        }
    }

    /// The program's name in a window's answer.
    pub fn window_class(&self, reply: &PropertyReply) -> (r: String)
        ensures
            r@ == class_in(*reply),
            valid_utf8(class_bytes_in(*reply)) ==> r@ == decode_utf8(class_bytes_in(*reply)),
    {
        proof {
            lemma_filled(pieces(reply.value@));
        }
        if reply.value_len == 0 {
            return String::new();
        }
        let list = split_pieces(&reply.value);
        let ghost all = piece_bytes(list@);
        let mut first: Option<usize> = None;
        let mut i: usize = 0;
        assert(all.take(0) =~= Seq::<Seq<u8>>::empty());
        while i < list.len()
            invariant
                i <= list@.len(),
                all == piece_bytes(list@),
                all == pieces(reply.value@),
                reply.value_len != 0,
                match first {
                    None => filled(all.take(i as int)) == Seq::<Seq<u8>>::empty(),
                    Some(k) => k < list@.len() && filled(all.take(i as int)) == seq![
                        list@[k as int]@,
                    ],
                },
            decreases list@.len() - i,
        {
            assert(all.take(i + 1).drop_last() =~= all.take(i as int));
            assert(all.take(i + 1).last() == list@[i as int]@);
            if list[i].len() > 0 {
                if first.is_some() {
                    proof {
                        lemma_filled_prefix(all, i + 1);
                    }
                    assert(filled(all)[1] == list@[i as int]@);
                    return from_utf8_lossy(list[i].as_slice());
                }
                first = Some(i);
                assert(filled(all.take(i + 1)) =~= seq![list@[i as int]@]);
            }
            i += 1;
        }
        assert(all.take(i as int) =~= all);
        match first {
            Some(k) => from_utf8_lossy(list[k].as_slice()),
            None => String::new(),
        }
    }

    /// The icon in a window's answer.
    pub open spec fn icon_in(self, reply: PropertyReply) -> Option<Seq<u32>> {
        if reply.has_words() {
            Some(reply.words(self.order))
        } else {
            None
        }
    }

    pub fn window_icon(&self, reply: &PropertyReply) -> (r: Option<Vec<u32>>)
        ensures
            opt_words(r) == self.icon_in(*reply),
    {
        if reply.value_len == 0 || reply.format != 32 {
            return None;
        }
        Some(read_u32_array(reply, self.order))
    }

    /// Whether an answer lists the given state.
    pub fn has_state(&self, reply: &PropertyReply, state_atom: u32) -> (r: bool)
        ensures
            r == reply.words(self.order).contains(state_atom),
    {
        let list = read_u32_array(reply, self.order);
        contains_word(&list, state_atom)
    }

    /// Whether a window's types include the normal one, or it has none.
    pub open spec fn normal_in(self, reply: PropertyReply) -> bool {
        let types = reply.words(self.order);
        types.len() == 0 || types.contains(self.atoms.net_wm_window_type_normal)
    }

    pub fn is_normal_or_unspecified(&self, reply: &PropertyReply) -> (r: bool)
        ensures
            r == self.normal_in(*reply),
    {
        let types = read_u32_array(reply, self.order);
        types.len() == 0 || contains_word(&types, self.atoms.net_wm_window_type_normal)
    }
}

fn contains_word(list: &Vec<u32>, word: u32) -> (r: bool)
    ensures
        r == list@.contains(word),
{
    let mut i: usize = 0;
    while i < list.len()
        invariant
            i <= list@.len(),
            forall|k: int| 0 <= k < i ==> list@[k] != word,
        decreases list@.len() - i,
    {
        if list[i] == word {
            return true;
        }
        i += 1;
    }
    false
}

/// The words of an icon, if there is one.
pub open spec fn opt_words(v: Option<Vec<u32>>) -> Option<Seq<u32>> {
    match v {
        Some(w) => Some(w@),
        None => None,
    }
}

/// The pieces that are not empty.
pub open spec fn filled(list: Seq<Seq<u8>>) -> Seq<Seq<u8>>
    decreases list.len(),
{
    if list.len() == 0 {
        list
    } else if list.last().len() == 0 {
        filled(list.drop_last())
    } else {
        filled(list.drop_last()).push(list.last())
    }
}

/// The bytes of the program's name in the answer for `WM_CLASS`: the class,
/// which comes second, or else the instance name, which comes first.
pub open spec fn class_bytes_in(reply: PropertyReply) -> Seq<u8> {
    let parts = filled(pieces(reply.value@));
    if reply.value_len == 0 || parts.len() == 0 {
        Seq::empty()
    } else if parts.len() == 1 {
        parts[0]
    } else {
        parts[1]
    }
}

/// The program's name in the answer for `WM_CLASS`.
pub open spec fn class_in(reply: PropertyReply) -> Seq<char> {
    if class_bytes_in(reply).len() == 0 {
        Seq::empty()
    } else {
        lossy_text(class_bytes_in(reply))
    }
}

proof fn lemma_filled(list: Seq<Seq<u8>>)
    ensures
        forall|i: int| 0 <= i < filled(list).len() ==> (#[trigger] filled(list)[i]).len() > 0,
    decreases list.len(),
{
    if list.len() > 0 {
        lemma_filled(list.drop_last());
        let rest = filled(list.drop_last());
        assert forall|i: int| 0 <= i < filled(list).len() implies (#[trigger] filled(list)[i]).len()
            > 0 by {
            if i < rest.len() {
                assert(filled(list)[i] == rest[i]);
            }
        }
    }
}

proof fn lemma_filled_prefix(list: Seq<Seq<u8>>, n: int)
    requires
        0 <= n <= list.len(),
    ensures
        filled(list).len() >= filled(list.take(n)).len(),
        forall|k: int|
            0 <= k < filled(list.take(n)).len() ==> #[trigger] filled(list)[k] == filled(
                list.take(n),
            )[k],
    decreases list.len() - n,
{
    if n < list.len() {
        lemma_filled_prefix(list, n + 1);
        assert(list.take(n + 1).drop_last() =~= list.take(n));
        assert forall|k: int| 0 <= k < filled(list.take(n)).len() implies #[trigger] filled(list)[k]
            == filled(list.take(n))[k] by {
            assert(filled(list.take(n + 1))[k] == filled(list.take(n))[k]);
        }
    } else {
        assert(list.take(n) =~= list);
    }
}

impl Ewmh {
    /// The message of type `message_type` about `window`.
    pub open spec fn message(self, window: u32, message_type: u32, a: u32, b: u32) -> Request {
        Request::Message(
            ClientMessage { destination: self.root, window, message_type, data: (a, b, 0, 0, 0) },
        )
    }

    /// Whether `r` is what carries out `op`.
    pub open spec fn carries_out(self, op: WmOp, r: Request) -> bool {
        let atoms = self.atoms;
        match op {
            WmOp::MoveToDesktop { window, desktop } => r == self.message(
                window,
                atoms.net_wm_desktop,
                desktop,
                SOURCE_PAGER,
            ),
            WmOp::SwitchDesktop { desktop, time } => r == self.message(
                self.root,
                atoms.net_current_desktop,
                desktop,
                time,
            ),
            WmOp::Activate { window, time } => r == self.message(
                window,
                atoms.net_active_window,
                SOURCE_PAGER,
                time,
            ),
            WmOp::Close { window, time } => r == self.message(
                window,
                atoms.net_close_window,
                time,
                SOURCE_PAGER,
            ),
            WmOp::Raise { window } => r == (Request::StackAbove { window }),
            WmOp::BumpUserTime { window, time } => r matches Request::SetProperty {
                window: w,
                property,
                type_,
                format,
                count,
                data,
            } && w == window && property == atoms.net_wm_user_time && type_ == 6 && format == 32
                && count == 1 && data@ == bytes_of(time, self.order),
        }
    }

    fn send(&self, window: u32, message_type: u32, a: u32, b: u32) -> (r: Request)
        ensures
            r == self.message(window, message_type, a, b),
    {
        Request::Message(
            ClientMessage { destination: self.root, window, message_type, data: (a, b, 0, 0, 0) },
        )
    }

    pub fn switch_desktop(&self, index: u32, time: u32) -> (r: Request)
        ensures
            self.carries_out(WmOp::SwitchDesktop { desktop: index, time }, r),
    {
        self.send(self.root, self.atoms.net_current_desktop, index, time)
    }

    pub fn move_window_to_desktop(&self, w: u32, index: u32) -> (r: Request)
        ensures
            self.carries_out(WmOp::MoveToDesktop { window: w, desktop: index }, r),
    {
        self.send(w, self.atoms.net_wm_desktop, index, SOURCE_PAGER)
    }

    pub fn activate_window(&self, w: u32, time: u32) -> (r: Request)
        ensures
            self.carries_out(WmOp::Activate { window: w, time }, r),
    {
        self.send(w, self.atoms.net_active_window, SOURCE_PAGER, time)
    }

    /// Raises `w` to the top of its stack. Focusing a window does not raise it
    /// under every window manager.
    pub fn raise_window(&self, w: u32) -> (r: Request)
        ensures
            self.carries_out(WmOp::Raise { window: w }, r),
    {
        Request::StackAbove { window: w }
    }

    /// Marks `w` as touched by the user at `time`. Window managers may ignore
    /// a focus request for a window that was not.
    pub fn bump_user_time(&self, w: u32, time: u32) -> (r: Request)
        ensures
            self.carries_out(WmOp::BumpUserTime { window: w, time }, r),
    {
        Request::SetProperty {
            window: w,
            property: self.atoms.net_wm_user_time,
            type_: cardinal_atom(),
            format: 32,
            count: 1,
            data: word_bytes(time, self.order),
        }
    }

    /// Asks the window manager to close `w`; the client gets a chance to save.
    pub fn close_window(&self, w: u32, time: u32) -> (r: Request)
        ensures
            self.carries_out(WmOp::Close { window: w, time }, r),
    {
        self.send(w, self.atoms.net_close_window, time, SOURCE_PAGER)
    }

    /// The request that carries out `op`.
    pub fn encode(&self, op: WmOp) -> (r: Request)
        ensures
            self.carries_out(op, r),
    {
        match op {
            WmOp::MoveToDesktop { window, desktop } => self.move_window_to_desktop(
                window,
                desktop,
            ),
            WmOp::SwitchDesktop { desktop, time } => self.switch_desktop(desktop, time),
            WmOp::Activate { window, time } => self.activate_window(window, time),
            WmOp::Raise { window } => self.raise_window(window),
            WmOp::BumpUserTime { window, time } => self.bump_user_time(window, time),
            WmOp::Close { window, time } => self.close_window(window, time),
        }
    }
}

/// Byte strings one after the other, each with a zero byte behind it.
pub open spec fn terminated(list: Seq<Seq<u8>>) -> Seq<u8>
    decreases list.len(),
{
    if list.len() == 0 {
        Seq::empty()
    } else {
        terminated(list.drop_last()) + list.last().push(0)
    }
}

proof fn lemma_pieces_of_more(bytes: Seq<u8>, tail: Seq<u8>)
    requires
        !tail.contains(0),
    ensures
        pieces(bytes + tail) == pieces(bytes).drop_last().push(pieces(bytes).last() + tail),
    decreases tail.len(),
{
    lemma_pieces_nonempty(bytes);
    let before = pieces(bytes);
    if tail.len() == 0 {
        assert(bytes + tail =~= bytes);
        assert(before.last() + tail =~= before.last());
        assert(before.drop_last().push(before.last()) =~= before);
    } else {
        let rest = tail.drop_last();
        assert(tail.contains(tail.last()));
        assert forall|b: u8| rest.contains(b) implies tail.contains(b) by {
            let i = choose|i: int| 0 <= i < rest.len() && rest[i] == b;
            assert(tail[i] == b);
        }
        lemma_pieces_of_more(bytes, rest);
        assert((bytes + tail).drop_last() =~= bytes + rest);
        let grown = before.drop_last().push(before.last() + rest);
        assert(grown.drop_last() =~= before.drop_last());
        assert((before.last() + rest).push(tail.last()) =~= before.last() + tail);
    }
}

/// Byte strings without zero bytes are found again where each of them ends in
/// a zero byte; behind the last one there is an empty piece.
pub proof fn law_pieces_are_found_again(list: Seq<Seq<u8>>)
    requires
        forall|i: int| 0 <= i < list.len() ==> !(#[trigger] list[i]).contains(0),
    ensures
        pieces(terminated(list)) == list.push(Seq::empty()),
    decreases list.len(),
{
    if list.len() == 0 {
        assert(pieces(terminated(list)) =~= list.push(Seq::empty()));
    } else {
        let rest = list.drop_last();
        assert forall|i: int| 0 <= i < rest.len() implies !(#[trigger] rest[i]).contains(0) by {
            assert(rest[i] == list[i]);
        }
        law_pieces_are_found_again(rest);
        let bytes = terminated(rest);
        lemma_pieces_of_more(bytes, list.last());
        let all = terminated(list);
        assert(all.drop_last() =~= bytes + list.last());
        assert(all.last() == 0);
        assert(Seq::<u8>::empty() + list.last() =~= list.last());
        assert(pieces(all) =~= list.push(Seq::empty()));
    }
}

proof fn lemma_filled_of_filled(list: Seq<Seq<u8>>)
    requires
        forall|i: int| 0 <= i < list.len() ==> (#[trigger] list[i]).len() > 0,
    ensures
        filled(list) == list,
    decreases list.len(),
{
    if list.len() > 0 {
        let rest = list.drop_last();
        assert forall|i: int| 0 <= i < rest.len() implies (#[trigger] rest[i]).len() > 0 by {
            assert(rest[i] == list[i]);
        }
        lemma_filled_of_filled(rest);
        assert(filled(list) =~= list);
    }
}

/// A class that is published with an instance name before it is the program's
/// name.
pub proof fn law_class_is_found_again(instance: Seq<u8>, class: Seq<u8>, reply: PropertyReply)
    requires
        instance.len() > 0,
        class.len() > 0,
        !instance.contains(0),
        !class.contains(0),
        reply.value_len > 0,
        reply.value@ == instance.push(0) + class.push(0),
    ensures
        class_bytes_in(reply) == class,
{
    let list = seq![instance, class];
    assert forall|i: int| 0 <= i < list.len() implies !(#[trigger] list[i]).contains(0) by {
        assert(i == 0 || i == 1);
    }
    law_pieces_are_found_again(list);
    assert(list.drop_last() =~= seq![instance]);
    assert(seq![instance].drop_last() =~= Seq::<Seq<u8>>::empty());
    assert(terminated(Seq::<Seq<u8>>::empty()) =~= Seq::<u8>::empty());
    assert(terminated(seq![instance]) =~= instance.push(0));
    assert(terminated(list) =~= reply.value@);
    let all = list.push(Seq::<u8>::empty());
    assert(all.drop_last() =~= list);
    lemma_filled_of_filled(list);
}

/// A zero byte behind the last desktop name makes no difference, as long as no
/// bytes at all are read as an empty text, as they are in UTF-8.
pub proof fn law_final_zero_byte_starts_no_name(bytes: Seq<u8>, read: Reading)
    ensures
        read(Seq::empty()).len() == 0 ==> desktop_names_in(bytes.push(0), read)
            == desktop_names_in(bytes, read),
        desktop_names_in(bytes.push(0), strict()) == desktop_names_in(bytes, strict()),
{
    lemma_pieces_nonempty(bytes);
    let list = pieces(bytes);
    assert(bytes.push(0).drop_last() =~= bytes);
    let longer = list.push(Seq::<u8>::empty());
    assert(longer.drop_last() =~= list);
    assert(decode_utf8(Seq::<u8>::empty()) =~= Seq::<char>::empty());
    let a = names_in(list, read);
    let b = names_in(list, strict());
    assert(a.push(read(Seq::<u8>::empty())).drop_last() =~= a);
    assert(b.push(Seq::<char>::empty()).drop_last() =~= b);
}

/// The bytes of names.
pub open spec fn encoded(names: Seq<Seq<char>>) -> Seq<Seq<u8>> {
    names.map_values(|name: Seq<char>| encode_utf8(name))
}

/// Desktop names are found again where each of them ends in a zero byte, with
/// or without the last of these, as long as none is empty or holds such a byte
/// itself.
pub proof fn law_desktop_names_are_found_again(names: Seq<Seq<char>>)
    requires
        forall|i: int| 0 <= i < names.len() ==> (#[trigger] names[i]).len() > 0,
        forall|i: int| 0 <= i < names.len() ==> !encode_utf8(#[trigger] names[i]).contains(0),
    ensures
        all_valid(pieces(terminated(encoded(names)))),
        desktop_names_in(terminated(encoded(names)), strict()) == names,
        names.len() > 0 ==> desktop_names_in(terminated(encoded(names)).drop_last(), strict())
            == names,
{
    let list = encoded(names);
    if names.len() > 0 {
        let bytes = terminated(list);
        assert(bytes.last() == 0);
        assert(bytes.drop_last().push(0) =~= bytes);
        law_final_zero_byte_starts_no_name(bytes.drop_last(), strict());
    }
    assert forall|i: int| 0 <= i < list.len() implies !(#[trigger] list[i]).contains(0) by {
        assert(list[i] == encode_utf8(names[i]));
    }
    law_pieces_are_found_again(list);
    lemma_names_in(names);
    let all = list.push(Seq::<u8>::empty());
    assert forall|i: int| 0 <= i < all.len() implies valid_utf8(#[trigger] all[i]) by {
        if i < names.len() {
            assert(all[i] == encode_utf8(names[i]));
            encode_utf8_valid_utf8(names[i]);
        }
    }
    assert(all.drop_last() =~= list);
    assert(names.push(Seq::<char>::empty()).drop_last() =~= names);
    assert(decode_utf8(Seq::<u8>::empty()) =~= Seq::<char>::empty());
    if names.len() > 0 {
        assert(names[names.len() - 1].len() > 0);
    }
}

proof fn lemma_names_in(names: Seq<Seq<char>>)
    requires
        forall|i: int| 0 <= i < names.len() ==> (#[trigger] names[i]).len() > 0,
    ensures
        names_in(encoded(names), strict()) == names,
    decreases names.len(),
{
    let list = encoded(names);
    if names.len() > 0 {
        let rest = names.drop_last();
        assert forall|i: int| 0 <= i < rest.len() implies (#[trigger] rest[i]).len() > 0 by {
            assert(rest[i] == names[i]);
        }
        lemma_names_in(rest);
        assert(list.drop_last() =~= encoded(rest));
        assert(list.last() == encode_utf8(names.last()));
        encode_utf8_decode_utf8(names.last());
        if rest.len() > 0 {
            assert(rest.last() == rest[rest.len() - 1]);
        }
    }
    assert(names_in(list, strict()) =~= names);
}

/// Each question asks for the property with the name that the window manager
/// publishes it under, whatever number the server has given to that name: on
/// the root window for what is about the desktop as a whole, and otherwise on
/// the window in question.
pub proof fn law_questions_ask_for_their_property(
    ids: &[u32],
    atoms: Atoms,
    ew: Ewmh,
    window: u32,
)
    requires
        ids@.len() == 16,
        call_ensures(Atoms::new, (ids,), atoms),
        ew.atoms == atoms,
    ensures
        ({
            let names = atom_names();
            let number = ew.question(Query::NumberOfDesktops);
            let current = ew.question(Query::CurrentDesktop);
            let titles = ew.question(Query::DesktopNames);
            let clients = ew.question(Query::ClientList);
            let stacking = ew.question(Query::ClientListStacking);
            let active = ew.question(Query::ActiveWindow);
            &&& names.len() == 16
            &&& names[0] == "_NET_NUMBER_OF_DESKTOPS"@ && number.property == ids@[0]
            &&& names[1] == "_NET_CURRENT_DESKTOP"@ && current.property == ids@[1]
            &&& names[2] == "_NET_DESKTOP_NAMES"@ && titles.property == ids@[2]
            &&& names[3] == "_NET_CLIENT_LIST"@ && clients.property == ids@[3]
            &&& names[4] == "_NET_CLIENT_LIST_STACKING"@ && stacking.property == ids@[4]
            &&& names[5] == "_NET_ACTIVE_WINDOW"@ && active.property == ids@[5]
            &&& names[15] == "UTF8_STRING"@ && titles.type_ == ids@[15]
            &&& number.type_ == 6 && current.type_ == 6
            &&& clients.type_ == 33 && stacking.type_ == 33 && active.type_ == 33
            &&& number.window == ew.root && current.window == ew.root && titles.window == ew.root
            &&& clients.window == ew.root && stacking.window == ew.root && active.window == ew.root
            &&& number.length >= 1 && current.length >= 1 && active.length >= 1
            &&& titles.length == 0x3fff_ffff && clients.length == 0x3fff_ffff && stacking.length
                == 0x3fff_ffff
        }),
        ({
            let names = atom_names();
            let state = ew.question(Query::WindowState { window });
            let types = ew.question(Query::WindowType { window });
            let desktop = ew.question(Query::WindowDesktop { window });
            let title = ew.question(Query::NetName { window });
            let old_title = ew.question(Query::WmName { window });
            let class = ew.question(Query::Class { window });
            let icon = ew.question(Query::Icon { window });
            &&& names[6] == "_NET_WM_DESKTOP"@ && desktop.property == ids@[6]
            &&& names[7] == "_NET_WM_NAME"@ && title.property == ids@[7]
            &&& names[8] == "_NET_WM_ICON"@ && icon.property == ids@[8]
            &&& names[9] == "_NET_WM_WINDOW_TYPE"@ && types.property == ids@[9]
            &&& names[11] == "_NET_WM_STATE"@ && state.property == ids@[11]
            &&& old_title.property == 39 && class.property == 67
            &&& title.type_ == ids@[15] && old_title.type_ == 31 && class.type_ == 31
            &&& state.type_ == 4 && types.type_ == 4 && desktop.type_ == 6 && icon.type_ == 6
            &&& state.window == window && types.window == window && desktop.window == window
            &&& title.window == window && old_title.window == window && class.window == window
                && icon.window == window
            &&& icon.length == 0x3fff_ffff && title.length == 0x3fff_ffff && old_title.length
                == 0x3fff_ffff
            &&& state.length == 1024 && types.length == 1024 && class.length == 1024
            &&& desktop.length >= 1
        }),
        atom_names()[10] == "_NET_WM_WINDOW_TYPE_NORMAL"@ && atoms.net_wm_window_type_normal
            == ids@[10],
        atom_names()[12] == "_NET_WM_STATE_SKIP_TASKBAR"@ && atoms.net_wm_state_skip_taskbar
            == ids@[12],
{
}

/// A request to the window manager goes to the root window as a message of the
/// type for it, and says which window it is about, where or when, and that it
/// comes from a pager. Raising a window and marking it as touched are requests
/// to the server itself.
pub proof fn law_requests_say_what_is_wanted(
    ids: &[u32],
    atoms: Atoms,
    ew: &Ewmh,
    op: WmOp,
    r: Request,
)
    requires
        ids@.len() == 16,
        call_ensures(Atoms::new, (ids,), atoms),
        ew.atoms == atoms,
        call_ensures(Ewmh::encode, (ew, op), r),
    ensures
        atom_names()[1] == "_NET_CURRENT_DESKTOP"@ && atom_names()[5] == "_NET_ACTIVE_WINDOW"@,
        atom_names()[6] == "_NET_WM_DESKTOP"@ && atom_names()[13] == "_NET_CLOSE_WINDOW"@,
        atom_names()[14] == "_NET_WM_USER_TIME"@,
        op matches WmOp::MoveToDesktop { window, desktop } ==> (r matches Request::Message(m) && {
            &&& m.destination == ew.root && m.window == window && m.message_type == ids@[6]
            &&& m.data.0 == desktop && m.data.1 == 2
            &&& m.data.2 == 0 && m.data.3 == 0 && m.data.4 == 0
        }),
        op matches WmOp::SwitchDesktop { desktop, time } ==> (r matches Request::Message(m) && {
            &&& m.destination == ew.root && m.window == ew.root && m.message_type == ids@[1]
            &&& m.data.0 == desktop && m.data.1 == time
            &&& m.data.2 == 0 && m.data.3 == 0 && m.data.4 == 0
        }),
        op matches WmOp::Activate { window, time } ==> (r matches Request::Message(m) && {
            &&& m.destination == ew.root && m.window == window && m.message_type == ids@[5]
            &&& m.data.0 == 2 && m.data.1 == time
            &&& m.data.2 == 0 && m.data.3 == 0 && m.data.4 == 0
        }),
        op matches WmOp::Close { window, time } ==> (r matches Request::Message(m) && {
            &&& m.destination == ew.root && m.window == window && m.message_type == ids@[13]
            &&& m.data.0 == time && m.data.1 == 2
            &&& m.data.2 == 0 && m.data.3 == 0 && m.data.4 == 0
        }),
        op matches WmOp::Raise { window } ==> (r matches Request::StackAbove { window: w } && w
            == window),
        op matches WmOp::BumpUserTime { window, time } ==> (r matches Request::SetProperty {
            window: w,
            property,
            type_,
            format,
            count,
            data,
        } && w == window && property == ids@[14] && type_ == 6 && format == 32 && count == 1
            && words_in(data@, ew.order) == seq![time]),
{
    if let WmOp::BumpUserTime { window, time } = op {
        law_words_are_read_back(time, ew.order);
    }
}

/// An answer that holds no word counts as one desktop, as the first desktop
/// being the current one, as a window on the first desktop, and as no active
/// window; window zero is no active window either. Otherwise its first word
/// counts.
pub proof fn law_what_answers_mean(
    ew: &Ewmh,
    reply: &PropertyReply,
    n: u32,
    current: u32,
    active: Option<u32>,
    desktop: u32,
    icon: Option<Vec<u32>>,
)
    requires
        reply.wf(),
        call_ensures(Ewmh::number_of_desktops, (ew, reply), n),
        call_ensures(Ewmh::current_desktop, (ew, reply), current),
        call_ensures(Ewmh::active_window, (ew, reply), active),
        call_ensures(Ewmh::window_desktop, (ew, reply), desktop),
        call_ensures(Ewmh::window_icon, (ew, reply), icon),
    ensures
        ({
            let words = words_in(reply.value@, ew.order);
            if reply.format == 32 && reply.value_len > 0 {
                &&& n == words[0] && current == words[0] && desktop == words[0]
                &&& words[0] != 0 ==> active == Some(words[0])
                &&& words[0] == 0 ==> active is None
                &&& icon matches Some(v) && v@ == words
            } else {
                n == 1 && current == 0 && desktop == 0 && active is None && icon is None
            }
        }),
{
    law_answers_hold_words(*reply, ew.order);
}

/// A window has a state just if the answer lists it, and is a normal one just if
/// the answer lists that type or no type at all.
pub proof fn law_states_and_types(
    ew: &Ewmh,
    reply: &PropertyReply,
    state: u32,
    has: bool,
    normal: bool,
)
    requires
        reply.wf(),
        call_ensures(Ewmh::has_state, (ew, reply, state), has),
        call_ensures(Ewmh::is_normal_or_unspecified, (ew, reply), normal),
    ensures
        ({
            let words = words_in(reply.value@, ew.order);
            let some = reply.format == 32 && reply.value_len > 0;
            &&& has <==> some && exists|i: int| 0 <= i < words.len() && words[i] == state
            &&& normal <==> !some || exists|i: int|
                0 <= i < words.len() && words[i] == ew.atoms.net_wm_window_type_normal
        }),
{
    law_answers_hold_words(*reply, ew.order);
}

/// The windows in stacking order are taken if there are any. Otherwise the plain
/// list is, and as long as that has not been asked for there is no answer.
pub proof fn law_stacking_order_is_preferred(
    ew: &Ewmh,
    stacking: &PropertyReply,
    plain: Option<&PropertyReply>,
    r: Option<Vec<u32>>,
)
    requires
        stacking.wf(),
        call_ensures(Ewmh::client_list, (ew, stacking, plain), r),
    ensures
        stacking.format == 32 && stacking.value_len > 0 ==> (r matches Some(list) && list@
            == words_in(stacking.value@, ew.order)),
        !(stacking.format == 32 && stacking.value_len > 0) ==> match plain {
            None => r is None,
            Some(p) => r matches Some(list) && list@ == if p.format == 32 && p.value_len > 0 {
                words_in(p.value@, ew.order)
            } else {
                Seq::empty()
            },
        },
{
    law_answers_hold_words(*stacking, ew.order);
}

/// Where no two pieces in a row are empty, each piece is one name, in order.
pub proof fn law_pieces_are_names(list: Seq<Seq<u8>>, read: Reading)
    requires
        forall|i: int, k: int|
            0 <= i && k == i + 1 && k < list.len() ==> (#[trigger] list[i]).len() > 0 || (
            #[trigger] list[k]).len() > 0,
        forall|b: Seq<u8>| #[trigger] read(b).len() == 0 <==> b.len() == 0,
    ensures
        names_in(list, read) == list.map_values(read),
    decreases list.len(),
{
    if list.len() > 0 {
        let rest = list.drop_last();
        assert forall|i: int, k: int|
            0 <= i && k == i + 1 && k < rest.len() implies (#[trigger] rest[i]).len() > 0 || (
        #[trigger] rest[k]).len() > 0 by {
            assert(rest[i] == list[i] && rest[k] == list[k]);
        }
        law_pieces_are_names(rest, read);
        let before = names_in(rest, read);
        if before.len() > 0 {
            let i = list.len() - 2;
            assert(before.last() == read(list[i]));
            assert(list[i].len() > 0 || list[i + 1].len() > 0);
        }
        assert(before.push(read(list.last())) =~= list.map_values(read));
    }
    assert(names_in(list, read) =~= list.map_values(read));
}

/// A run of empty pieces counts as one empty name: one more behind another makes
/// no difference.
pub proof fn law_empty_pieces_count_once(list: Seq<Seq<u8>>, read: Reading)
    requires
        read(Seq::empty()).len() == 0,
    ensures
        names_in(list.push(Seq::empty()).push(Seq::empty()), read) == names_in(
            list.push(Seq::empty()),
            read,
        ),
{
    let once = list.push(Seq::<u8>::empty());
    let twice = once.push(Seq::<u8>::empty());
    assert(twice.drop_last() =~= once);
    assert(once.drop_last() =~= list);
}

/// The list of names ends with the last one that is not empty, and everything
/// before that is kept.
pub proof fn law_no_empty_name_at_the_end(bytes: Seq<u8>, read: Reading)
    ensures
        ({
            let names = names_in(pieces(bytes), read);
            let kept = desktop_names_in(bytes, read);
            &&& names.len() > 0 && names.last().len() == 0 ==> names == kept.push(names.last())
            &&& names.len() == 0 || names.last().len() > 0 ==> kept == names
        }),
{
    let names = names_in(pieces(bytes), read);
    if names.len() > 0 && names.last().len() == 0 {
        assert(names =~= names.drop_last().push(names.last()));
    }
}

/// There are as many desktops as the window manager says, numbered from zero.
/// Each has the name at its position, and those past the last name are called by
/// their number, counted from one.
pub proof fn law_desktops_are_numbered(n: u32, names: &Vec<String>, r: Vec<DesktopInfo>, i: int)
    requires
        call_ensures(Ewmh::desktops, (n, names), r),
        0 <= i < n,
    ensures
        r@.len() == n,
        r@[i].index == i,
        i < names@.len() ==> r@[i].name@ == names@[i]@,
        i >= names@.len() ==> r@[i].name@ == "Desktop "@ + decimal_text((i + 1) as nat),
{
}

/// A program that publishes one name only is called by that, and one that
/// publishes none has no name.
pub proof fn law_single_class_is_the_name(name: Seq<u8>, reply: PropertyReply, nothing: PropertyReply)
    requires
        name.len() > 0,
        !name.contains(0),
        reply.value_len > 0,
        reply.value@ == name || reply.value@ == name.push(0),
        nothing.value_len == 0 || nothing.value@.len() == 0,
    ensures
        class_bytes_in(reply) == name,
        class_in(reply) == lossy_text(name),
        class_in(nothing).len() == 0,
{
    let empty = Seq::<u8>::empty();
    lemma_pieces_of_more(empty, name);
    assert(empty + name =~= name);
    assert(pieces(empty).drop_last() =~= Seq::<Seq<u8>>::empty());
    assert(pieces(empty).last() + name =~= name);
    assert(pieces(name) =~= seq![name]);
    let one = seq![name];
    assert(one.drop_last() =~= Seq::<Seq<u8>>::empty());
    assert(filled(Seq::<Seq<u8>>::empty()) =~= Seq::<Seq<u8>>::empty());
    assert(filled(one) =~= one);
    assert(name.push(0).drop_last() =~= name);
    let two = seq![name, empty];
    assert(pieces(name.push(0)) =~= two);
    assert(two.drop_last() =~= one);
    if nothing.value@.len() == 0 {
        assert(nothing.value@ =~= empty);
        let none = seq![empty];
        assert(none.drop_last() =~= Seq::<Seq<u8>>::empty());
        assert(filled(none) =~= Seq::<Seq<u8>>::empty());
    }
}

proof fn lemma_pieces_behind_a_zero(front: Seq<u8>, tail: Seq<u8>)
    ensures
        pieces(front.push(0) + tail) == pieces(front) + pieces(tail),
    decreases tail.len(),
{
    let start = front.push(0);
    assert(start.drop_last() =~= front);
    lemma_pieces_nonempty(tail);
    if tail.len() == 0 {
        assert(start + tail =~= start);
        assert(tail =~= Seq::<u8>::empty());
        assert(pieces(front).push(Seq::empty()) =~= pieces(front) + pieces(tail));
    } else {
        let rest = tail.drop_last();
        lemma_pieces_behind_a_zero(front, rest);
        lemma_pieces_nonempty(rest);
        let a = pieces(front);
        let b = pieces(rest);
        assert((start + tail).drop_last() =~= start + rest);
        assert((start + tail).last() == tail.last());
        assert((a + b).drop_last() =~= a + b.drop_last());
        assert((a + b).last() == b.last());
        assert(pieces(start + tail) =~= a + pieces(tail));
    }
}

proof fn lemma_filled_of_both(a: Seq<Seq<u8>>, b: Seq<Seq<u8>>)
    ensures
        filled(a + b) == filled(a) + filled(b),
    decreases b.len(),
{
    if b.len() == 0 {
        assert(a + b =~= a);
        assert(filled(a) + filled(b) =~= filled(a));
    } else {
        assert((a + b).drop_last() =~= a + b.drop_last());
        lemma_filled_of_both(a, b.drop_last());
        assert(filled(a + b) =~= filled(a) + filled(b));
    }
}

/// The class is the second name that is published, whatever follows it.
pub proof fn law_class_is_the_second_name(
    instance: Seq<u8>,
    class: Seq<u8>,
    tail: Seq<u8>,
    reply: PropertyReply,
)
    requires
        instance.len() > 0,
        class.len() > 0,
        !instance.contains(0),
        !class.contains(0),
        reply.value_len > 0,
        reply.value@ == instance.push(0) + (class.push(0) + tail),
    ensures
        class_bytes_in(reply) == class,
        class_in(reply) == lossy_text(class),
{
    let empty = Seq::<u8>::empty();
    lemma_pieces_behind_a_zero(instance, class.push(0) + tail);
    lemma_pieces_behind_a_zero(class, tail);
    lemma_pieces_of_more(empty, instance);
    lemma_pieces_of_more(empty, class);
    assert(empty + instance =~= instance);
    assert(empty + class =~= class);
    assert(pieces(empty).last() + instance =~= instance);
    assert(pieces(empty).last() + class =~= class);
    assert(pieces(empty).drop_last() =~= Seq::<Seq<u8>>::empty());
    assert(pieces(instance) =~= seq![instance]);
    assert(pieces(class) =~= seq![class]);
    let names = seq![instance, class];
    assert(pieces(reply.value@) =~= names + pieces(tail));
    lemma_filled_of_both(names, pieces(tail));
    lemma_filled_of_filled(names);
    assert((names + filled(pieces(tail)))[1] == class);
}

} // verus!
