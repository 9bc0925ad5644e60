use vstd::prelude::*;
use colored::Colorize;

verus! {

/// State of a single cell of the grid.
#[derive(Clone, Copy, Debug, PartialEq, Eq, Structural, Hash)]
pub enum Tile {
    /// The cell is alive.
    Alive,
    /// The cell is dead.
    Dead,
}

/// The escape sequence that turns the foreground bright red.
pub open spec fn bright_red_start() -> Seq<char> {
    seq!['\u{1b}', '[', '9', '1', 'm']
}

/// The escape sequence that resets all styling.
pub open spec fn style_reset() -> Seq<char> {
    seq!['\u{1b}', '[', '0', 'm']
}

/// What `console_output` may print for a live tile: a plain star, or a star in
/// bright red when the process colours its output.
pub open spec fn is_live_glyph(g: Seq<char>) -> bool {
    g == seq!['*'] || g == bright_red_start() + seq!['*'] + style_reset()
}

/// Relies on colored's `Colorize::bright_red` and the `Display` of
/// `ColoredString`: text holding no escape character is printed as it is when
/// colouring is off for the process, else between the bright-red sequence and
/// the reset sequence. Whether colouring is on depends on the environment.
#[verifier::external_body]
fn bright_red(s: &str) -> (r: String)
    requires
        forall|i: int| 0 <= i < s@.len() ==> s@[i] != '\u{1b}',
    ensures
        r@ == s@ || r@ == bright_red_start() + s@ + style_reset(),
{
    format!("{}", s.bright_red())
}

/// Relies on colored's `Colorize::normal` and the `Display` of `ColoredString`:
/// text without any style is printed as it is.
#[verifier::external_body]
fn unstyled(s: &str) -> (r: String)
    ensures
        r@ == s@,
{
    format!("{}", s.normal())
}

impl Tile {
    /// Is the tile alive?
    pub fn is_alive(&self) -> (r: bool)
        ensures
            r == (*self is Alive),
    {
        match self {
            Tile::Alive => true,
            Tile::Dead => false,
        }
    }

    /// One character wide text for the console: a star for a live tile, in
    /// bright red where the terminal takes colours, a blank for a dead one.
    pub fn console_output(&self) -> (r: String)
        ensures
            *self is Alive ==> is_live_glyph(r@),
            *self is Dead ==> r@ == seq![' '],
    {
        match self {
            Tile::Alive => {
                proof {
                    reveal_strlit("*");
                    assert("*"@ =~= seq!['*']);
                }
                bright_red("*")
            },
            Tile::Dead => {
                proof {
                    reveal_strlit(" ");
                    assert(" "@ =~= seq![' ']);
                }
                unstyled(" ")
            },
        }
    }
}

} // verus!
