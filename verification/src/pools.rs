//! The two asset pools that reactions draw from, and how a draw picks an
//! entry.

use vstd::prelude::*;

verus! {

/// Number of entries of the visual pool.
pub const VISUAL_POOL_LEN: usize = 10;

/// Number of entries of the audio pool.
pub const AUDIO_POOL_LEN: usize = 7;

/// The names of the visual pool, in order.
pub open spec fn visual_names() -> Seq<Seq<char>> {
    seq![
        "big_spoon"@,
        "cat"@,
        "dude"@,
        "emoji"@,
        "kirby_squid"@,
        "omg_cat"@,
        "omg"@,
        "spunchbop"@,
        "the_rock"@,
        "tiki"@,
    ]
}

/// The names of the audio pool, in order.
pub open spec fn audio_names() -> Seq<Seq<char>> {
    seq![
        "bruh"@,
        "deez_nuts"@,
        "OHHHHH"@,
        "ohmygod"@,
        "phone_linging"@,
        "quandale_dingle"@,
        "vine_boom"@,
    ]
}

/// The pool entry that a raw draw selects.
pub open spec fn pick_spec(draw: usize, pool_len: usize) -> usize
    recommends
        pool_len > 0,
{
    (draw % pool_len) as usize
}

/// Reduces a raw draw to an index into a pool of `pool_len` entries.
pub fn pick_index(draw: usize, pool_len: usize) -> (index: usize)
    requires
        pool_len > 0,
    ensures
        index == pick_spec(draw, pool_len),
        index < pool_len,
{
    draw % pool_len
}

/// The name of entry `id` of the visual pool, if there is one.
pub fn visual_name(id: usize) -> (name: Option<&'static str>)
    ensures
        match name {
            Some(n) => id < VISUAL_POOL_LEN && n@ == visual_names()[id as int],
            None => id >= VISUAL_POOL_LEN,
        },
{
    match id {
        0 => Some("big_spoon"),
        1 => Some("cat"),
        2 => Some("dude"),
        3 => Some("emoji"),
        4 => Some("kirby_squid"),
        5 => Some("omg_cat"),
        6 => Some("omg"),
        7 => Some("spunchbop"),
        8 => Some("the_rock"),
        9 => Some("tiki"),
        _ => None,
    }
}

/// The name of entry `id` of the audio pool, if there is one.
pub fn audio_name(id: usize) -> (name: Option<&'static str>)
    ensures
        match name {
            Some(n) => id < AUDIO_POOL_LEN && n@ == audio_names()[id as int],
            None => id >= AUDIO_POOL_LEN,
        },
{
    match id {
        0 => Some("bruh"),
        1 => Some("deez_nuts"),
        2 => Some("OHHHHH"),
        3 => Some("ohmygod"),
        4 => Some("phone_linging"),
        5 => Some("quandale_dingle"),
        6 => Some("vine_boom"),
        _ => None,
    }
}

/// `std::string::String::push_str` on an owned string: the result is `head`
/// followed by `tail`, as the method's documentation says.
#[verifier::external_body]
fn append(head: String, tail: &str) -> (joined: String)
    ensures
        joined@ == head@ + tail@,
{
    let mut joined = head;
    joined.push_str(tail);
    joined
}

/// The asset path of entry `id` of the visual pool.
pub fn texture_path(id: usize) -> (path: Option<String>)
    ensures
        match path {
            Some(p) => id < VISUAL_POOL_LEN && p@ == "textures/"@ + visual_names()[id as int]
                + ".png"@,
            None => id >= VISUAL_POOL_LEN,
        },
{
    match visual_name(id) {
        Some(name) => Some(append(append("textures/".to_owned(), name), ".png")),
        None => None,
    }
}

/// The asset path of entry `id` of the audio pool.
pub fn sound_path(id: usize) -> (path: Option<String>)
    ensures
        match path {
            Some(p) => id < AUDIO_POOL_LEN && p@ == "sounds/"@ + audio_names()[id as int]
                + ".ogg"@,
            None => id >= AUDIO_POOL_LEN,
        },
{
    match audio_name(id) {
        Some(name) => Some(append(append("sounds/".to_owned(), name), ".ogg")),
        None => None,
    }
}

/// `rand::random::<usize>()`: one draw from the thread-local generator.
/// Nothing is claimed of the value drawn.
#[verifier::external_body]
pub(crate) fn random_draw() -> (value: usize) {
    rand::random::<usize>()
}

} // verus!
