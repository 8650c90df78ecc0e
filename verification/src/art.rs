//! The ASCII art shown beside the information.

use vstd::prelude::*;

use crate::config::AsciiConfig;
use crate::text::{align_left, left_aligned, lines_of, same_text, split_lines, views_of};

verus! {

/// The `cat` art.
pub const CAT_ART: &'static str = r#"
  /\_/\  
 ( o.o ) 
  > ^ <  
 /  _  \ 
(____|____)"#;

/// The `crab` art.
pub const CRAB_ART: &'static str = r#"
    _~^~^~_
\) /  o o  \ (/
  '_   V   _'
  / '-----' \"#;

/// The `ferris` art.
pub const FERRIS_ART: &'static str = r#"
     _~^~^~_
 \) /  o o  \ (/
   '_   -   _'
   / '-----' \
             "#;

/// The `rust` art.
pub const RUST_ART: &'static str = r#"
                     
      ____     
     /\  _`\   
   __\ \ \L\ \  
 /'__`\ \  _ <' 
/\  __/\ \ \L\ \
\ \____\\ \____/
 \/____/ \/___/ "#;

/// The `tux` art.
pub const TUX_ART: &'static str = r#"
   .--.   
  |o_o |  
  |:_/ |  
 //   \ \ 
(|     | )
/'\_   _/`\
\___)=(___/"#;

/// The `rsfetch` art.
pub const RSFETCH_ART: &'static str = r#"
     ----    
    |*   |_____
  __|___       |
 |       ______|
 |_____|   |   
       |  *|
        ----"#;

/// The `tree` art.
pub const TREE_ART: &'static str = r#"
       /\\  
      /**\\  
     /****\\  
    /******\\  
   /********\\  
  /__________\\  
       ||  
       ||"#;

/// The built-in art for a style name; an unknown style gets the crab.
pub open spec fn builtin_art(style: Seq<char>) -> Seq<char> {
    if style == "cat"@ {
        CAT_ART@
    } else if style == "crab"@ {
        CRAB_ART@
    } else if style == "ferris"@ {
        FERRIS_ART@
    } else if style == "rust"@ {
        RUST_ART@
    } else if style == "tux"@ {
        TUX_ART@
    } else if style == "rsfetch"@ {
        RSFETCH_ART@
    } else if style == "tree"@ {
        TREE_ART@
    } else {
        CRAB_ART@
    }
}

/// The built-in art for a style name.
pub fn builtin_art_text(style: &str) -> (r: &'static str)
    ensures
        r@ == builtin_art(style@),
{
    if same_text(style, "cat") {
        CAT_ART
    } else if same_text(style, "crab") {
        CRAB_ART
    } else if same_text(style, "ferris") {
        FERRIS_ART
    } else if same_text(style, "rust") {
        RUST_ART
    } else if same_text(style, "tux") {
        TUX_ART
    } else if same_text(style, "rsfetch") {
        RSFETCH_ART
    } else if same_text(style, "tree") {
        TREE_ART
    } else {
        CRAB_ART
    }
}

/// Whether an optional string is present and not empty.
pub open spec fn is_filled(o: Option<Seq<char>>) -> bool {
    o matches Some(s) && s.len() > 0
}

/// Where the art comes from: its lines, or a file to read first.
pub enum ArtStep {
    /// The art's lines.
    Lines(Vec<String>),
    /// The art is in the file at this path.
    ReadFile(String),
}

/// The first step in finding the art: custom art that is not empty gives the
/// lines; otherwise a custom art path that is not empty is to be read;
/// otherwise the built-in art of the style gives the lines.
pub fn art_first_step(ascii: &AsciiConfig) -> (r: ArtStep)
    ensures
        is_filled(ascii@.custom_art) ==> (r matches ArtStep::Lines(l) && views_of(l@) == lines_of(
            ascii@.custom_art->0,
        )),
        !is_filled(ascii@.custom_art) && is_filled(ascii@.custom_art_path) ==> (r matches ArtStep::ReadFile(p)
            && p@ == ascii@.custom_art_path->0),
        !is_filled(ascii@.custom_art) && !is_filled(ascii@.custom_art_path) ==> (r matches ArtStep::Lines(l)
            && views_of(l@) == lines_of(builtin_art(ascii@.art_style))),
        ascii@.custom_art is Some && ascii@.custom_art->0.len() > 0 ==> (r matches ArtStep::Lines(l)
            && views_of(l@) == lines_of(ascii@.custom_art->0)),
        (ascii@.custom_art is None || ascii@.custom_art->0.len() == 0) && ascii@.custom_art_path is Some
            && ascii@.custom_art_path->0.len() > 0 ==> (r matches ArtStep::ReadFile(q) && q@
            == ascii@.custom_art_path->0),
        (ascii@.custom_art is None || ascii@.custom_art->0.len() == 0) && (ascii@.custom_art_path is None
            || ascii@.custom_art_path->0.len() == 0) ==> (r matches ArtStep::Lines(l) && views_of(l@)
            == lines_of(builtin_art(ascii@.art_style))),
{
    if let Some(art) = &ascii.custom_art {
        if art.as_str().unicode_len() > 0 {
            return ArtStep::Lines(split_lines(art.as_str()));
        }
    }
    if let Some(path) = &ascii.custom_art_path {
        if path.as_str().unicode_len() > 0 {
            return ArtStep::ReadFile(path.clone());
        }
    }
    ArtStep::Lines(split_lines(builtin_art_text(ascii.art_style.as_str())))
}

/// The art's lines once the custom art file was read: the file's lines, or,
/// where it could not be read (`None`), those of the built-in art of the
/// style.
pub fn art_after_read(content: Option<&str>, ascii: &AsciiConfig) -> (r: Vec<String>)
    ensures
        views_of(r@) == match content {
            Some(c) => lines_of(c@),
            None => lines_of(builtin_art(ascii@.art_style)),
        },
{
    match content {
        Some(c) => split_lines(c),
        None => split_lines(builtin_art_text(ascii.art_style.as_str())),
    }
}

/// The width of the art column: two more than the configured art width,
/// and at least eleven.
pub open spec fn art_column(art_width: usize) -> int {
    if art_width + 2 > 11 {
        art_width + 2
    } else {
        11
    }
}

/// The width of the art column.
pub fn art_column_width(art_width: usize) -> (r: usize)
    requires
        art_width + 2 <= usize::MAX,
    ensures
        r == art_column(art_width),
{
    let w = art_width + 2;
    if w > 11 {
        w
    } else {
        11
    }
}

/// The art cell of information line `i`: the art's line `i`, or nothing
/// where the art has fewer lines, aligned left in the art column.
pub open spec fn art_cell_text(art: Seq<Seq<char>>, i: int, width: nat) -> Seq<char> {
    left_aligned(if 0 <= i < art.len() { art[i] } else { seq![] }, width)
}

/// The art cell of information line `i`.
pub fn art_cell(art: &Vec<String>, i: usize, width: usize) -> (r: String)
    ensures
        r@ == art_cell_text(views_of(art@), i as int, width as nat),
{
    proof {
        reveal_strlit("");
    }
    if i < art.len() {
        align_left(art[i].as_str(), width)
    } else {
        align_left("", width)
    }
}

/// Each of the seven style names chooses its own art, and every other name
/// the crab.
pub proof fn each_style_has_its_art(style: Seq<char>)
    ensures
        builtin_art("cat"@) == CAT_ART@,
        builtin_art("crab"@) == CRAB_ART@,
        builtin_art("ferris"@) == FERRIS_ART@,
        builtin_art("rust"@) == RUST_ART@,
        builtin_art("tux"@) == TUX_ART@,
        builtin_art("rsfetch"@) == RSFETCH_ART@,
        builtin_art("tree"@) == TREE_ART@,
        style != "cat"@ && style != "crab"@ && style != "ferris"@ && style != "rust"@ && style != "tux"@ && style != "rsfetch"@ && style != "tree"@ ==> builtin_art(style) == CRAB_ART@,
{
    reveal_strlit("cat");
    reveal_strlit("crab");
    reveal_strlit("ferris");
    reveal_strlit("rust");
    reveal_strlit("tux");
    reveal_strlit("rsfetch");
    reveal_strlit("tree");
    assert("cat"@[0] != "tux"@[0]);
    assert("crab"@[0] != "rust"@[0] && "crab"@[0] != "tree"@[0] && "rust"@[0] != "tree"@[0]);
    assert("cat"@.len() != "crab"@.len() && "cat"@.len() != "ferris"@.len() && "cat"@.len() != "rsfetch"@.len());
    assert("crab"@.len() != "ferris"@.len() && "crab"@.len() != "tux"@.len() && "crab"@.len() != "rsfetch"@.len());
    assert("ferris"@.len() != "rust"@.len() && "ferris"@.len() != "tux"@.len() && "ferris"@.len() != "rsfetch"@.len() && "ferris"@.len() != "tree"@.len());
    assert("rust"@.len() != "tux"@.len() && "rust"@.len() != "rsfetch"@.len() && "tux"@.len() != "rsfetch"@.len() && "tux"@.len() != "tree"@.len() && "rsfetch"@.len() != "tree"@.len());
    assert("cat"@.len() != "rust"@.len() && "cat"@.len() != "tree"@.len());
}

/// The art column is the larger of eleven and two more than the art width.
pub proof fn art_column_is_the_larger(art_width: usize)
    ensures
        art_column(art_width) >= 11,
        art_column(art_width) >= art_width + 2,
        art_column(art_width) == 11 || art_column(art_width) == art_width + 2,
{
}

} // verus!
