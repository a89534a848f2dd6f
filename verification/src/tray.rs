//! The tray menu's scene entries.

use vstd::prelude::*;

use crate::text::{
    chars_of, decimal_signed, decimal_signed_chars, has_prefix, parse_i64_chars, parse_i64_spec,
    push_all, push_str_chars, starts_with_chars, string_from_chars, sub_chars,
};

verus! {

/// A scene's menu label: its name, with a check mark when it is the active one.
pub open spec fn scene_label_spec(name: Seq<char>, active: bool) -> Seq<char> {
    if active {
        name + " ✓"@
    } else {
        name
    }
}

pub fn scene_menu_label(name: &str, active: bool) -> (r: String)
    ensures
        r@ == scene_label_spec(name@, active),
{
    let mut cs = chars_of(name);
    if active {
        push_str_chars(&mut cs, " ✓");
    }
    string_from_chars(&cs)
}

/// The menu item id of a scene: `scene:<id>`.
pub open spec fn scene_item_id_spec(id: i64) -> Seq<char> {
    "scene:"@ + decimal_signed(id as int)
}

pub fn scene_menu_id(id: i64) -> (r: String)
    ensures
        r@ == scene_item_id_spec(id),
{
    let mut cs = chars_of("scene:");
    let digits = decimal_signed_chars(id);
    push_all(&mut cs, &digits);
    string_from_chars(&cs)
}

/// The scene a menu item id names: `scene:<id>`.
pub open spec fn scene_of_menu_id(id: Seq<char>) -> Option<i64> {
    if has_prefix(id, "scene:"@) {
        parse_i64_spec(id.skip(6))
    } else {
        None
    }
}

pub fn scene_id_from_menu(id: &str) -> (r: Option<i64>)
    ensures
        r == scene_of_menu_id(id@),
{
    proof {
        reveal_strlit("scene:");
    }
    let cs = chars_of(id);
    let prefix = chars_of("scene:");
    if !starts_with_chars(&cs, &prefix) {
        return None;
    }
    let rest = sub_chars(&cs, 6, cs.len());
    assert(rest@ =~= id@.skip(6));
    parse_i64_chars(&rest)
}

/// The scene named by a scene's menu item id is that scene.
pub proof fn law_scene_menu_id_round_trip(id: i64)
    ensures
        scene_of_menu_id(scene_item_id_spec(id)) == Some(id),
{
    reveal_strlit("scene:");
    let s = scene_item_id_spec(id);
    assert(s.take(6) =~= "scene:"@);
    assert(s.skip(6) =~= decimal_signed(id as int));
    crate::text::lemma_parse_decimal_signed(id);
}

} // verus!
