//! Global shortcut text such as `cmd+shift+e`, read into modifiers and a key.

use vstd::prelude::*;
use crate::text::{lowercase, spec_lowercase, spec_trim, split, split_on, str_eq, trim, views};

verus! {

/// A key that a shortcut can end in.
#[derive(Clone, Copy, Debug, PartialEq, Eq, Structural)]
pub enum Key {
    KeyA,
    KeyB,
    KeyC,
    KeyD,
    KeyE,
    KeyF,
    KeyG,
    KeyH,
    KeyI,
    KeyJ,
    KeyK,
    KeyL,
    KeyM,
    KeyN,
    KeyO,
    KeyP,
    KeyQ,
    KeyR,
    KeyS,
    KeyT,
    KeyU,
    KeyV,
    KeyW,
    KeyX,
    KeyY,
    KeyZ,
    Digit0,
    Digit1,
    Digit2,
    Digit3,
    Digit4,
    Digit5,
    Digit6,
    Digit7,
    Digit8,
    Digit9,
    Space,
    Enter,
}

/// The key names and the keys they stand for.
pub open spec fn key_table() -> Seq<(&'static str, Key)> {
    seq![
        ("a", Key::KeyA),
        ("b", Key::KeyB),
        ("c", Key::KeyC),
        ("d", Key::KeyD),
        ("e", Key::KeyE),
        ("f", Key::KeyF),
        ("g", Key::KeyG),
        ("h", Key::KeyH),
        ("i", Key::KeyI),
        ("j", Key::KeyJ),
        ("k", Key::KeyK),
        ("l", Key::KeyL),
        ("m", Key::KeyM),
        ("n", Key::KeyN),
        ("o", Key::KeyO),
        ("p", Key::KeyP),
        ("q", Key::KeyQ),
        ("r", Key::KeyR),
        ("s", Key::KeyS),
        ("t", Key::KeyT),
        ("u", Key::KeyU),
        ("v", Key::KeyV),
        ("w", Key::KeyW),
        ("x", Key::KeyX),
        ("y", Key::KeyY),
        ("z", Key::KeyZ),
        ("0", Key::Digit0),
        ("1", Key::Digit1),
        ("2", Key::Digit2),
        ("3", Key::Digit3),
        ("4", Key::Digit4),
        ("5", Key::Digit5),
        ("6", Key::Digit6),
        ("7", Key::Digit7),
        ("8", Key::Digit8),
        ("9", Key::Digit9),
        ("space", Key::Space),
        ("enter", Key::Enter),
        ("return", Key::Enter),
    ]
}

/// The key of the first row of `rows` named `k`.
pub open spec fn lookup_key(rows: Seq<(&'static str, Key)>, k: Seq<char>) -> Option<Key>
    decreases rows.len(),
{
    if rows.len() == 0 {
        None
    } else if rows[0].0@ == k {
        Some(rows[0].1)
    } else {
        lookup_key(rows.drop_first(), k)
    }
}

/// The key that the lowercase name `k` stands for: `a` to `z`, `0` to `9`,
/// `space`, and `enter` or `return`.
pub open spec fn spec_key_to_code(k: Seq<char>) -> Option<Key> {
    lookup_key(key_table(), k)
}

/// Reads a key name.
pub fn key_to_code(k: &str) -> (res: Option<Key>)
    ensures
        res == spec_key_to_code(k@),
{
    let table = vec![
        ("a", Key::KeyA),
        ("b", Key::KeyB),
        ("c", Key::KeyC),
        ("d", Key::KeyD),
        ("e", Key::KeyE),
        ("f", Key::KeyF),
        ("g", Key::KeyG),
        ("h", Key::KeyH),
        ("i", Key::KeyI),
        ("j", Key::KeyJ),
        ("k", Key::KeyK),
        ("l", Key::KeyL),
        ("m", Key::KeyM),
        ("n", Key::KeyN),
        ("o", Key::KeyO),
        ("p", Key::KeyP),
        ("q", Key::KeyQ),
        ("r", Key::KeyR),
        ("s", Key::KeyS),
        ("t", Key::KeyT),
        ("u", Key::KeyU),
        ("v", Key::KeyV),
        ("w", Key::KeyW),
        ("x", Key::KeyX),
        ("y", Key::KeyY),
        ("z", Key::KeyZ),
        ("0", Key::Digit0),
        ("1", Key::Digit1),
        ("2", Key::Digit2),
        ("3", Key::Digit3),
        ("4", Key::Digit4),
        ("5", Key::Digit5),
        ("6", Key::Digit6),
        ("7", Key::Digit7),
        ("8", Key::Digit8),
        ("9", Key::Digit9),
        ("space", Key::Space),
        ("enter", Key::Enter),
        ("return", Key::Enter),
    ];
    assert(table@ =~= key_table());
    let mut i: usize = 0;
    assert(table@.skip(0) =~= table@);
    while i < table.len()
        invariant
            i <= table.len(),
            table@ == key_table(),
            lookup_key(key_table(), k@) == lookup_key(table@.skip(i as int), k@),
        decreases table.len() - i,
    {
        assert(table@.skip(i as int).drop_first() =~= table@.skip(i + 1));
        assert(table@.skip(i as int)[0] == table@[i as int]);
        if str_eq(table[i].0, k) {
            return Some(table[i].1);
        }
        i = i + 1;
    }
    None
}

/// Which modifier keys a shortcut holds down.
#[derive(Clone, Copy, Debug, PartialEq, Eq, Structural)]
pub struct Modifiers {
    /// Command on macOS (`cmd`, `command`, `super`, `meta`, `win`).
    pub super_key: bool,
    pub shift: bool,
    /// Option on macOS (`alt`, `option`, `opt`).
    pub alt: bool,
    /// `ctrl` or `control`.
    pub control: bool,
}

/// A global shortcut: its modifiers, `None` where it has none, and its key.
#[derive(Clone, Copy, Debug, PartialEq, Eq, Structural)]
pub struct Shortcut {
    pub mods: Option<Modifiers>,
    pub key: Key,
}

/// What one `+`-separated piece of a shortcut does.
pub enum Piece {
    Super,
    Shift,
    Alt,
    Control,
    /// Any other piece sets the key: the one it names, or none.
    Key(Option<Key>),
}

/// The meaning of a trimmed, lowercase piece.
pub open spec fn spec_piece(tok: Seq<char>) -> Piece {
    if tok == "cmd"@ || tok == "command"@ || tok == "super"@ || tok == "meta"@ || tok == "win"@ {
        Piece::Super
    } else if tok == "shift"@ {
        Piece::Shift
    } else if tok == "alt"@ || tok == "option"@ || tok == "opt"@ {
        Piece::Alt
    } else if tok == "ctrl"@ || tok == "control"@ {
        Piece::Control
    } else {
        Piece::Key(spec_key_to_code(tok))
    }
}

/// No modifier held.
pub open spec fn no_mods() -> Modifiers {
    Modifiers { super_key: false, shift: false, alt: false, control: false }
}

/// The modifiers and the key after reading the pieces in order: each
/// modifier piece adds its modifier, each other piece replaces the key.
pub open spec fn read_pieces(toks: Seq<Seq<char>>) -> (Modifiers, Option<Key>)
    decreases toks.len(),
{
    if toks.len() == 0 {
        (no_mods(), None)
    } else {
        let (m, k) = read_pieces(toks.drop_last());
        match spec_piece(toks.last()) {
            Piece::Super => (Modifiers { super_key: true, ..m }, k),
            Piece::Shift => (Modifiers { shift: true, ..m }, k),
            Piece::Alt => (Modifiers { alt: true, ..m }, k),
            Piece::Control => (Modifiers { control: true, ..m }, k),
            Piece::Key(c) => (m, c),
        }
    }
}

/// The shortcut that the trimmed, lowercase pieces `toks` describe: none
/// where the pieces leave no key.
pub open spec fn spec_shortcut_from_pieces(toks: Seq<Seq<char>>) -> Option<Shortcut> {
    let (m, k) = read_pieces(toks);
    match k {
        Some(key) => Some(Shortcut { mods: if m == no_mods() { None } else { Some(m) }, key }),
        None => None,
    }
}

/// The pieces of shortcut text: split at `+`, trimmed, lowercased.
pub open spec fn shortcut_pieces(s: Seq<char>) -> Seq<Seq<char>> {
    Seq::new(split_on(s, '+').len(), |i: int| spec_lowercase(spec_trim(split_on(s, '+')[i])))
}

/// The shortcut that text such as `cmd+shift+e` describes.
pub open spec fn spec_parse_shortcut(s: Seq<char>) -> Option<Shortcut> {
    spec_shortcut_from_pieces(shortcut_pieces(s))
}

fn piece(tok: &str) -> (res: Piece)
    ensures
        res == spec_piece(tok@),
{
    if str_eq(tok, "cmd") || str_eq(tok, "command") || str_eq(tok, "super") || str_eq(tok, "meta")
        || str_eq(tok, "win") {
        Piece::Super
    } else if str_eq(tok, "shift") {
        Piece::Shift
    } else if str_eq(tok, "alt") || str_eq(tok, "option") || str_eq(tok, "opt") {
        Piece::Alt
    } else if str_eq(tok, "ctrl") || str_eq(tok, "control") {
        Piece::Control
    } else {
        Piece::Key(key_to_code(tok))
    }
}

/// Reads trimmed, lowercase shortcut pieces into a shortcut.
pub fn shortcut_from_pieces(toks: &Vec<String>) -> (res: Option<Shortcut>)
    ensures
        res == spec_shortcut_from_pieces(views(toks@)),
{
    let mut m = Modifiers { super_key: false, shift: false, alt: false, control: false };
    let mut code: Option<Key> = None;
    let mut i: usize = 0;
    assert(views(toks@).take(0) =~= Seq::<Seq<char>>::empty());
    while i < toks.len()
        invariant
            i <= toks.len(),
            (m, code) == read_pieces(views(toks@).take(i as int)),
        decreases toks.len() - i,
    {
        assert(views(toks@).take(i + 1).drop_last() =~= views(toks@).take(i as int));
        match piece(toks[i].as_str()) {
            Piece::Super => { m.super_key = true; },
            Piece::Shift => { m.shift = true; },
            Piece::Alt => { m.alt = true; },
            Piece::Control => { m.control = true; },
            Piece::Key(c) => { code = c; },
        }
        i = i + 1;
    }
    assert(views(toks@).take(toks.len() as int) =~= views(toks@));
    match code {
        Some(key) => {
            let none = !m.super_key && !m.shift && !m.alt && !m.control;
            Some(Shortcut { mods: if none { None } else { Some(m) }, key })
        },
        None => None,
    }
}

/// Reads shortcut text such as `cmd+shift+e`: modifiers and a key joined by
/// `+`, in any case, with white space around the pieces allowed. Text
/// without a key gives none; of several keys the last counts.
pub fn parse_shortcut(s: &str) -> (res: Option<Shortcut>)
    ensures
        res == spec_parse_shortcut(s@),
{
    let parts = split(s, '+');
    let mut toks: Vec<String> = Vec::new();
    let mut i: usize = 0;
    while i < parts.len()
        invariant
            i <= parts.len(),
            views(parts@) == split_on(s@, '+'),
            views(toks@) == shortcut_pieces(s@).take(i as int),
        decreases parts.len() - i,
    {
        let trimmed = trim(parts[i].as_str());
        let lower = lowercase(trimmed.as_str());
        let ghost before = views(toks@);
        toks.push(lower);
        assert(views(toks@) =~= before.push(lower@));
        assert(shortcut_pieces(s@).take(i + 1) =~= shortcut_pieces(s@).take(i as int).push(lower@));
        i = i + 1;
    }
    assert(shortcut_pieces(s@).take(parts.len() as int) =~= shortcut_pieces(s@));
    shortcut_from_pieces(&toks)
}

/// The message for shortcut text that names no key.
pub open spec fn spec_shortcut_error(s: Seq<char>) -> Seq<char> {
    "단축키 형식 오류: "@ + s
}

/// Reads shortcut text, or says that it is malformed.
pub fn shortcut_or_error(s: &str) -> (res: Result<Shortcut, String>)
    ensures
        match res {
            Ok(sc) => spec_parse_shortcut(s@) == Some(sc),
            Err(e) => spec_parse_shortcut(s@) is None && e@ == spec_shortcut_error(s@),
        },
{
    match parse_shortcut(s) {
        Some(sc) => Ok(sc),
        None => {
            let mut e = String::from_str("단축키 형식 오류: ");
            e.append(s);
            Err(e)
        },
    }
}

/// Whether a piece is a modifier.
pub open spec fn is_modifier(p: Piece) -> bool {
    !(p is Key)
}

/// Pieces read after equal states end in equal states.
proof fn lemma_read_suffix(a: Seq<Seq<char>>, b: Seq<Seq<char>>, t: Seq<Seq<char>>)
    requires
        read_pieces(a) == read_pieces(b),
    ensures
        read_pieces(a + t) == read_pieces(b + t),
    decreases t.len(),
{
    if t.len() > 0 {
        lemma_read_suffix(a, b, t.drop_last());
        assert((a + t).drop_last() =~= a + t.drop_last());
        assert((b + t).drop_last() =~= b + t.drop_last());
    }
}

/// The order of the modifiers does not matter: swapping two neighbouring
/// modifier pieces reads the same shortcut.
pub proof fn law_modifier_order(pre: Seq<Seq<char>>, x: Seq<char>, y: Seq<char>, post: Seq<Seq<char>>)
    requires
        is_modifier(spec_piece(x)),
        is_modifier(spec_piece(y)),
    ensures
        spec_shortcut_from_pieces(pre + seq![x, y] + post) == spec_shortcut_from_pieces(pre + seq![y, x] + post),
{
    let a = pre + seq![x, y];
    let b = pre + seq![y, x];
    assert(a.drop_last() =~= pre.push(x));
    assert(b.drop_last() =~= pre.push(y));
    assert(pre.push(x).drop_last() =~= pre);
    assert(pre.push(y).drop_last() =~= pre);
    assert(a.last() == y && b.last() == x);
    assert(pre.push(x).last() == x && pre.push(y).last() == y);
    assert(read_pieces(a) == read_pieces(b)) by {
        reveal_with_fuel(read_pieces, 3);
    }
    lemma_read_suffix(a, b, post);
}

/// The modifiers that any of the pieces names.
pub open spec fn mods_of(toks: Seq<Seq<char>>) -> Modifiers {
    Modifiers {
        super_key: exists|i: int| 0 <= i < toks.len() && spec_piece(toks[i]) is Super,
        shift: exists|i: int| 0 <= i < toks.len() && spec_piece(toks[i]) is Shift,
        alt: exists|i: int| 0 <= i < toks.len() && spec_piece(toks[i]) is Alt,
        control: exists|i: int| 0 <= i < toks.len() && spec_piece(toks[i]) is Control,
    }
}

/// Piece `k` is the only one that is not a modifier.
pub open spec fn only_key_piece(toks: Seq<Seq<char>>, k: int) -> bool {
    &&& 0 <= k < toks.len()
    &&& !is_modifier(spec_piece(toks[k]))
    &&& forall|i: int| 0 <= i < toks.len() && i != k ==> is_modifier(spec_piece(toks[i]))
}

proof fn lemma_read_mods(toks: Seq<Seq<char>>)
    ensures
        read_pieces(toks).0 == mods_of(toks),
    decreases toks.len(),
{
    if toks.len() > 0 {
        let init = toks.drop_last();
        lemma_read_mods(init);
        let m = mods_of(toks);
        let mi = mods_of(init);
        let p = spec_piece(toks.last());
        assert(m.super_key == (mi.super_key || p is Super)) by {
            if m.super_key {
                let i = choose|i: int| 0 <= i < toks.len() && spec_piece(toks[i]) is Super;
                if i < init.len() { assert(init[i] == toks[i]); }
            }
            if mi.super_key {
                let i = choose|i: int| 0 <= i < init.len() && spec_piece(init[i]) is Super;
                assert(init[i] == toks[i]);
            }
            if p is Super { assert(spec_piece(toks[toks.len() - 1]) is Super); }
        }
        assert(m.shift == (mi.shift || p is Shift)) by {
            if m.shift {
                let i = choose|i: int| 0 <= i < toks.len() && spec_piece(toks[i]) is Shift;
                if i < init.len() { assert(init[i] == toks[i]); }
            }
            if mi.shift {
                let i = choose|i: int| 0 <= i < init.len() && spec_piece(init[i]) is Shift;
                assert(init[i] == toks[i]);
            }
            if p is Shift { assert(spec_piece(toks[toks.len() - 1]) is Shift); }
        }
        assert(m.alt == (mi.alt || p is Alt)) by {
            if m.alt {
                let i = choose|i: int| 0 <= i < toks.len() && spec_piece(toks[i]) is Alt;
                if i < init.len() { assert(init[i] == toks[i]); }
            }
            if mi.alt {
                let i = choose|i: int| 0 <= i < init.len() && spec_piece(init[i]) is Alt;
                assert(init[i] == toks[i]);
            }
            if p is Alt { assert(spec_piece(toks[toks.len() - 1]) is Alt); }
        }
        assert(m.control == (mi.control || p is Control)) by {
            if m.control {
                let i = choose|i: int| 0 <= i < toks.len() && spec_piece(toks[i]) is Control;
                if i < init.len() { assert(init[i] == toks[i]); }
            }
            if mi.control {
                let i = choose|i: int| 0 <= i < init.len() && spec_piece(init[i]) is Control;
                assert(init[i] == toks[i]);
            }
            if p is Control { assert(spec_piece(toks[toks.len() - 1]) is Control); }
        }
    } else {
        assert(mods_of(toks) == no_mods());
    }
}

proof fn lemma_read_key(toks: Seq<Seq<char>>, k: int)
    requires
        only_key_piece(toks, k),
    ensures
        read_pieces(toks).1 == spec_key_to_code(toks[k]),
    decreases toks.len(),
{
    if k < toks.len() - 1 {
        let init = toks.drop_last();
        assert forall|i: int| 0 <= i < init.len() && i != k implies is_modifier(spec_piece(init[i])) by {
            assert(init[i] == toks[i]);
        }
        assert(init[k] == toks[k]);
        lemma_read_key(init, k);
        assert(is_modifier(spec_piece(toks[toks.len() - 1])));
    }
}

/// Shortcut pieces with exactly one key piece read as that piece's key
/// with the modifiers that any piece names (none where no piece names one).
pub proof fn law_one_key_reading(toks: Seq<Seq<char>>, k: int)
    requires
        only_key_piece(toks, k),
    ensures
        spec_shortcut_from_pieces(toks) == match spec_key_to_code(toks[k]) {
            Some(c) => Some(Shortcut {
                mods: if mods_of(toks) == no_mods() { None } else { Some(mods_of(toks)) },
                key: c,
            }),
            None => None,
        },
{
    lemma_read_mods(toks);
    lemma_read_key(toks, k);
}

/// The same for shortcut text: with exactly one piece that is no modifier,
/// the text reads as that piece's key with the modifiers the pieces name.
pub proof fn law_parse_one_key(s: Seq<char>, k: int)
    requires
        only_key_piece(shortcut_pieces(s), k),
    ensures
        spec_parse_shortcut(s) == match spec_key_to_code(shortcut_pieces(s)[k]) {
            Some(c) => Some(Shortcut {
                mods: if mods_of(shortcut_pieces(s)) == no_mods() { None } else { Some(mods_of(shortcut_pieces(s))) },
                key: c,
            }),
            None => None,
        },
{
    law_one_key_reading(shortcut_pieces(s), k);
}

/// Whether `t2` is `t1` in the order `perm`: a one-to-one, onto map of
/// positions with `t2[i] == t1[perm[i]]`.
pub open spec fn is_reordering(t1: Seq<Seq<char>>, t2: Seq<Seq<char>>, perm: Seq<int>) -> bool {
    &&& t1.len() == t2.len() && perm.len() == t1.len()
    &&& forall|i: int| 0 <= i < t2.len() ==> 0 <= #[trigger] perm[i] < t1.len() && t2[i] == t1[perm[i]]
    &&& forall|i: int, j: int| 0 <= i < perm.len() && 0 <= j < perm.len() && i != j ==> perm[i] != perm[j]
    &&& forall|m: int| 0 <= m < t1.len()
        ==> exists|i: int| 0 <= i < perm.len() && perm[i] == m && t2[i] == #[trigger] t1[m]
}

/// Shortcut text with exactly one key reads the same whatever order its
/// pieces come in.
pub proof fn law_reordering(t1: Seq<Seq<char>>, t2: Seq<Seq<char>>, perm: Seq<int>, k: int)
    requires
        is_reordering(t1, t2, perm),
        only_key_piece(t1, k),
    ensures
        spec_shortcut_from_pieces(t1) == spec_shortcut_from_pieces(t2),
{
    assert(t1[k] == t1[k]);
    let j = choose|i: int| 0 <= i < perm.len() && perm[i] == k && t2[i] == t1[k];
    assert(only_key_piece(t2, j)) by {
        assert forall|i: int| 0 <= i < t2.len() && i != j implies is_modifier(spec_piece(t2[i])) by {
            assert(perm[i] != perm[j]);
            assert(t2[i] == t1[perm[i]]);
        }
        assert(t2[j] == t1[k]);
    }
    assert(mods_of(t1) == mods_of(t2)) by {
        assert forall|i: int| 0 <= i < t2.len() implies spec_piece(t2[i]) == spec_piece(t1[perm[i]]) by {
            assert(t2[i] == t1[perm[i]]);
        }
        assert forall|m: int| 0 <= m < t1.len() implies exists|i: int| 0 <= i < t2.len() && spec_piece(t2[i]) == spec_piece(#[trigger] t1[m]) by {
            let i = choose|i: int| 0 <= i < perm.len() && perm[i] == m && t2[i] == t1[m];
        }
        let a = mods_of(t1);
        let b = mods_of(t2);
        assert(a.super_key == b.super_key) by {
            if a.super_key {
                let m = choose|m: int| 0 <= m < t1.len() && spec_piece(t1[m]) is Super;
                let i = choose|i: int| 0 <= i < t2.len() && spec_piece(t2[i]) == spec_piece(t1[m]);
            }
            if b.super_key {
                let i = choose|i: int| 0 <= i < t2.len() && spec_piece(t2[i]) is Super;
                assert(spec_piece(t1[perm[i]]) is Super);
            }
        }
        assert(a.shift == b.shift) by {
            if a.shift {
                let m = choose|m: int| 0 <= m < t1.len() && spec_piece(t1[m]) is Shift;
                let i = choose|i: int| 0 <= i < t2.len() && spec_piece(t2[i]) == spec_piece(t1[m]);
            }
            if b.shift {
                let i = choose|i: int| 0 <= i < t2.len() && spec_piece(t2[i]) is Shift;
                assert(spec_piece(t1[perm[i]]) is Shift);
            }
        }
        assert(a.alt == b.alt) by {
            if a.alt {
                let m = choose|m: int| 0 <= m < t1.len() && spec_piece(t1[m]) is Alt;
                let i = choose|i: int| 0 <= i < t2.len() && spec_piece(t2[i]) == spec_piece(t1[m]);
            }
            if b.alt {
                let i = choose|i: int| 0 <= i < t2.len() && spec_piece(t2[i]) is Alt;
                assert(spec_piece(t1[perm[i]]) is Alt);
            }
        }
        assert(a.control == b.control) by {
            if a.control {
                let m = choose|m: int| 0 <= m < t1.len() && spec_piece(t1[m]) is Control;
                let i = choose|i: int| 0 <= i < t2.len() && spec_piece(t2[i]) == spec_piece(t1[m]);
            }
            if b.control {
                let i = choose|i: int| 0 <= i < t2.len() && spec_piece(t2[i]) is Control;
                assert(spec_piece(t1[perm[i]]) is Control);
            }
        }
    }
    law_one_key_reading(t1, k);
    law_one_key_reading(t2, j);
}

/// Finding row `i` by its name, where no row before it has that name.
proof fn lemma_lookup_hit(rows: Seq<(&'static str, Key)>, k: Seq<char>, i: int)
    requires
        0 <= i < rows.len(),
        rows[i].0@ == k,
        forall|j: int| 0 <= j < i ==> rows[j].0@ != k,
    ensures
        lookup_key(rows, k) == Some(rows[i].1),
    decreases i,
{
    if i > 0 {
        assert(rows[0].0@ != k);
        lemma_lookup_hit(rows.drop_first(), k, i - 1);
    }
}

/// Each key name stands for its own key: a letter for that letter's key, a
/// digit for that digit's key, `space` for the space bar, and `enter` and
/// `return` for the Enter key.
pub proof fn law_key_names()
    ensures
        spec_key_to_code("a"@) == Some(Key::KeyA),
        spec_key_to_code("b"@) == Some(Key::KeyB),
        spec_key_to_code("c"@) == Some(Key::KeyC),
        spec_key_to_code("d"@) == Some(Key::KeyD),
        spec_key_to_code("e"@) == Some(Key::KeyE),
        spec_key_to_code("f"@) == Some(Key::KeyF),
        spec_key_to_code("g"@) == Some(Key::KeyG),
        spec_key_to_code("h"@) == Some(Key::KeyH),
        spec_key_to_code("i"@) == Some(Key::KeyI),
        spec_key_to_code("j"@) == Some(Key::KeyJ),
        spec_key_to_code("k"@) == Some(Key::KeyK),
        spec_key_to_code("l"@) == Some(Key::KeyL),
        spec_key_to_code("m"@) == Some(Key::KeyM),
        spec_key_to_code("n"@) == Some(Key::KeyN),
        spec_key_to_code("o"@) == Some(Key::KeyO),
        spec_key_to_code("p"@) == Some(Key::KeyP),
        spec_key_to_code("q"@) == Some(Key::KeyQ),
        spec_key_to_code("r"@) == Some(Key::KeyR),
        spec_key_to_code("s"@) == Some(Key::KeyS),
        spec_key_to_code("t"@) == Some(Key::KeyT),
        spec_key_to_code("u"@) == Some(Key::KeyU),
        spec_key_to_code("v"@) == Some(Key::KeyV),
        spec_key_to_code("w"@) == Some(Key::KeyW),
        spec_key_to_code("x"@) == Some(Key::KeyX),
        spec_key_to_code("y"@) == Some(Key::KeyY),
        spec_key_to_code("z"@) == Some(Key::KeyZ),
        spec_key_to_code("0"@) == Some(Key::Digit0),
        spec_key_to_code("1"@) == Some(Key::Digit1),
        spec_key_to_code("2"@) == Some(Key::Digit2),
        spec_key_to_code("3"@) == Some(Key::Digit3),
        spec_key_to_code("4"@) == Some(Key::Digit4),
        spec_key_to_code("5"@) == Some(Key::Digit5),
        spec_key_to_code("6"@) == Some(Key::Digit6),
        spec_key_to_code("7"@) == Some(Key::Digit7),
        spec_key_to_code("8"@) == Some(Key::Digit8),
        spec_key_to_code("9"@) == Some(Key::Digit9),
        spec_key_to_code("space"@) == Some(Key::Space),
        spec_key_to_code("enter"@) == Some(Key::Enter),
        spec_key_to_code("return"@) == Some(Key::Enter),
{
    reveal_strlit("a");
    reveal_strlit("b");
    reveal_strlit("c");
    reveal_strlit("d");
    reveal_strlit("e");
    reveal_strlit("f");
    reveal_strlit("g");
    reveal_strlit("h");
    reveal_strlit("i");
    reveal_strlit("j");
    reveal_strlit("k");
    reveal_strlit("l");
    reveal_strlit("m");
    reveal_strlit("n");
    reveal_strlit("o");
    reveal_strlit("p");
    reveal_strlit("q");
    reveal_strlit("r");
    reveal_strlit("s");
    reveal_strlit("t");
    reveal_strlit("u");
    reveal_strlit("v");
    reveal_strlit("w");
    reveal_strlit("x");
    reveal_strlit("y");
    reveal_strlit("z");
    reveal_strlit("0");
    reveal_strlit("1");
    reveal_strlit("2");
    reveal_strlit("3");
    reveal_strlit("4");
    reveal_strlit("5");
    reveal_strlit("6");
    reveal_strlit("7");
    reveal_strlit("8");
    reveal_strlit("9");
    reveal_strlit("space");
    reveal_strlit("enter");
    reveal_strlit("return");
    let t = key_table();
    assert forall|i: int, j: int| 0 <= i < j < t.len() implies t[i].0@ != t[j].0@ || (i == 37 && j == 38) by {
        if t[i].0@ == t[j].0@ && !(i == 37 && j == 38) {
            if t[i].0@.len() == 1 && t[j].0@.len() == 1 {
                assert(t[i].0@[0] == t[j].0@[0]);
            } else if t[i].0@.len() == t[j].0@.len() {
                assert(t[i].0@[0] == t[j].0@[0]);
            }
        }
    }
    assert forall|i: int| 0 <= i < t.len() implies spec_key_to_code(#[trigger] t[i].0@) == Some(t[i].1) by {
        let k = t[i].0@;
        if i == 38 {
            assert(t[37].0@ != k) by { assert(t[37].0@.len() != k.len()); }
        }
        lemma_lookup_hit(t, k, i);
    }
    assert(t[0].0 == "a");
    assert(t[1].0 == "b");
    assert(t[2].0 == "c");
    assert(t[3].0 == "d");
    assert(t[4].0 == "e");
    assert(t[5].0 == "f");
    assert(t[6].0 == "g");
    assert(t[7].0 == "h");
    assert(t[8].0 == "i");
    assert(t[9].0 == "j");
    assert(t[10].0 == "k");
    assert(t[11].0 == "l");
    assert(t[12].0 == "m");
    assert(t[13].0 == "n");
    assert(t[14].0 == "o");
    assert(t[15].0 == "p");
    assert(t[16].0 == "q");
    assert(t[17].0 == "r");
    assert(t[18].0 == "s");
    assert(t[19].0 == "t");
    assert(t[20].0 == "u");
    assert(t[21].0 == "v");
    assert(t[22].0 == "w");
    assert(t[23].0 == "x");
    assert(t[24].0 == "y");
    assert(t[25].0 == "z");
    assert(t[26].0 == "0");
    assert(t[27].0 == "1");
    assert(t[28].0 == "2");
    assert(t[29].0 == "3");
    assert(t[30].0 == "4");
    assert(t[31].0 == "5");
    assert(t[32].0 == "6");
    assert(t[33].0 == "7");
    assert(t[34].0 == "8");
    assert(t[35].0 == "9");
    assert(t[36].0 == "space");
    assert(t[37].0 == "enter");
    assert(t[38].0 == "return");
    assert(spec_key_to_code(t[0].0@) == Some(t[0].1));
    assert(spec_key_to_code(t[1].0@) == Some(t[1].1));
    assert(spec_key_to_code(t[2].0@) == Some(t[2].1));
    assert(spec_key_to_code(t[3].0@) == Some(t[3].1));
    assert(spec_key_to_code(t[4].0@) == Some(t[4].1));
    assert(spec_key_to_code(t[5].0@) == Some(t[5].1));
    assert(spec_key_to_code(t[6].0@) == Some(t[6].1));
    assert(spec_key_to_code(t[7].0@) == Some(t[7].1));
    assert(spec_key_to_code(t[8].0@) == Some(t[8].1));
    assert(spec_key_to_code(t[9].0@) == Some(t[9].1));
    assert(spec_key_to_code(t[10].0@) == Some(t[10].1));
    assert(spec_key_to_code(t[11].0@) == Some(t[11].1));
    assert(spec_key_to_code(t[12].0@) == Some(t[12].1));
    assert(spec_key_to_code(t[13].0@) == Some(t[13].1));
    assert(spec_key_to_code(t[14].0@) == Some(t[14].1));
    assert(spec_key_to_code(t[15].0@) == Some(t[15].1));
    assert(spec_key_to_code(t[16].0@) == Some(t[16].1));
    assert(spec_key_to_code(t[17].0@) == Some(t[17].1));
    assert(spec_key_to_code(t[18].0@) == Some(t[18].1));
    assert(spec_key_to_code(t[19].0@) == Some(t[19].1));
    assert(spec_key_to_code(t[20].0@) == Some(t[20].1));
    assert(spec_key_to_code(t[21].0@) == Some(t[21].1));
    assert(spec_key_to_code(t[22].0@) == Some(t[22].1));
    assert(spec_key_to_code(t[23].0@) == Some(t[23].1));
    assert(spec_key_to_code(t[24].0@) == Some(t[24].1));
    assert(spec_key_to_code(t[25].0@) == Some(t[25].1));
    assert(spec_key_to_code(t[26].0@) == Some(t[26].1));
    assert(spec_key_to_code(t[27].0@) == Some(t[27].1));
    assert(spec_key_to_code(t[28].0@) == Some(t[28].1));
    assert(spec_key_to_code(t[29].0@) == Some(t[29].1));
    assert(spec_key_to_code(t[30].0@) == Some(t[30].1));
    assert(spec_key_to_code(t[31].0@) == Some(t[31].1));
    assert(spec_key_to_code(t[32].0@) == Some(t[32].1));
    assert(spec_key_to_code(t[33].0@) == Some(t[33].1));
    assert(spec_key_to_code(t[34].0@) == Some(t[34].1));
    assert(spec_key_to_code(t[35].0@) == Some(t[35].1));
    assert(spec_key_to_code(t[36].0@) == Some(t[36].1));
    assert(spec_key_to_code(t[37].0@) == Some(t[37].1));
    assert(spec_key_to_code(t[38].0@) == Some(t[38].1));
}

} // verus!
