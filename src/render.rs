use vstd::prelude::*;
use vstd::string::StringExecFns;
use crate::tile::{is_live_glyph, Tile};
use crate::tile_map::TileMap;

verus! {

/// The decimal digit `d`.
pub open spec fn digit_char(d: nat) -> char {
    seq!['0', '1', '2', '3', '4', '5', '6', '7', '8', '9'][d as int]
}

/// `n` written in decimal, without leading zeros.
pub open spec fn decimal(n: nat) -> Seq<char>
    decreases n,
{
    if n < 10 {
        seq![digit_char(n)]
    } else {
        decimal(n / 10) + seq![digit_char(n % 10)]
    }
}

/// The decimal digit `d` as text.
fn digit_str(d: u16) -> (r: &'static str)
    requires
        d < 10,
    ensures
        r@ == seq![digit_char(d as nat)],
{
    proof {
        reveal_strlit("0");
        reveal_strlit("1");
        reveal_strlit("2");
        reveal_strlit("3");
        reveal_strlit("4");
        reveal_strlit("5");
        reveal_strlit("6");
        reveal_strlit("7");
        reveal_strlit("8");
        reveal_strlit("9");
    }
    let r = match d {
        0 => "0",
        1 => "1",
        2 => "2",
        3 => "3",
        4 => "4",
        5 => "5",
        6 => "6",
        7 => "7",
        8 => "8",
        _ => "9",
    };
    assert(r@ =~= seq![digit_char(d as nat)]);
    r
}

/// `n` written in decimal.
fn decimal_string(n: u16) -> (r: String)
    ensures
        r@ == decimal(n as nat),
{
    proof {
        reveal_strlit("");
    }
    let mut m: u16 = n;
    let mut out = String::from_str("");
    while m >= 10
        invariant
            decimal(n as nat) == decimal(m as nat) + out@,
        decreases m,
    {
        let digit = String::from_str(digit_str(m % 10));
        out = digit.concat(out.as_str());
        proof {
            assert(decimal(m as nat) == decimal((m / 10) as nat) + seq![digit_char((m % 10) as nat)]);
            assert(decimal(n as nat) =~= decimal((m / 10) as nat) + out@);
        }
        m = m / 10;
    }
    let last = String::from_str(digit_str(m));
    let r = last.concat(out.as_str());
    assert(r@ =~= decimal(n as nat));
    r
}

/// A horizontal border for a grid `width` cells wide: one dash per cell and one
/// for each side.
pub open spec fn border(width: nat) -> Seq<char> {
    Seq::new(width + 2, |i: int| '-')
}

/// Text of a tile, given the text of a live and of a dead one.
pub open spec fn glyph(t: Tile, live: Seq<char>, dead: Seq<char>) -> Seq<char> {
    if t is Alive {
        live
    } else {
        dead
    }
}

impl TileMap {
    /// The first `n` tiles of row `y`, left to right.
    pub open spec fn row_glyphs(&self, y: int, n: nat, live: Seq<char>, dead: Seq<char>) -> Seq<char>
        decreases n,
    {
        if n == 0 {
            seq![]
        } else {
            self.row_glyphs(y, (n - 1) as nat, live, dead) + glyph(self.tile(n - 1, y), live, dead)
        }
    }

    /// Row `y` framed by a bar on each side, and a line break.
    pub open spec fn row_line(&self, y: int, live: Seq<char>, dead: Seq<char>) -> Seq<char> {
        seq!['|'] + self.row_glyphs(y, self.spec_width() as nat, live, dead) + seq!['|', '\n']
    }

    /// The top `k` rows, highest row first.
    pub open spec fn top_rows(&self, k: nat, live: Seq<char>, dead: Seq<char>) -> Seq<char>
        decreases k,
    {
        if k == 0 {
            seq![]
        } else {
            self.top_rows((k - 1) as nat, live, dead) + self.row_line(
                self.spec_height() - k,
                live,
                dead,
            )
        }
    }

    /// The header `Map (width, height):`, then the rows from the highest down,
    /// between two borders.
    pub open spec fn header(&self) -> Seq<char> {
        seq!['M', 'a', 'p', ' ', '('] + decimal(self.spec_width() as nat) + seq![',', ' ']
            + decimal(self.spec_height() as nat) + seq![')', ':', '\n']
    }

    pub open spec fn rendered(&self, live: Seq<char>, dead: Seq<char>) -> Seq<char> {
        self.header() + border(self.spec_width() as nat) + seq!['\n'] + self.top_rows(
            self.spec_height() as nat,
            live,
            dead,
        ) + border(self.spec_width() as nat)
    }

    fn border_line(&self) -> (r: String)
        ensures
            r@ == border(self.spec_width() as nat),
    {
        let n: usize = self.width() as usize + 2;
        proof {
            reveal_strlit("");
        }
        let mut line = String::from_str("");
        let mut i: usize = 0;
        while i < n
            invariant
                i <= n,
                n == self.spec_width() + 2,
                line@ == Seq::new(i as nat, |j: int| '-'),
            decreases n - i,
        {
            proof {
                reveal_strlit("-");
                assert("-"@ =~= seq!['-']);
            }
            line.append("-");
            i = i + 1;
            assert(line@ =~= Seq::new(i as nat, |j: int| '-'));
        }
        line
    }

    /// The grid as text, with `live` and `dead` as the text of each tile.
    pub fn render(&self, live: &str, dead: &str) -> (r: String)
        requires
            self.wf(),
        ensures
            r@ == self.rendered(live@, dead@),
    {
        let w = self.width();
        let h = self.height();
        proof {
            reveal_strlit("Map (");
            reveal_strlit(", ");
            reveal_strlit("):\n");
            reveal_strlit("\n");
        }
        let mut out = String::from_str("Map (");
        out.append(decimal_string(w).as_str());
        out.append(", ");
        out.append(decimal_string(h).as_str());
        out.append("):\n");
        assert(out@ =~= self.header());
        let line = self.border_line();
        out.append(line.as_str());
        out.append("\n");
        let ghost top = out@;
        assert(top + self.top_rows(0, live@, dead@) =~= top);
        let mut k: u16 = 0;
        while k < h
            invariant
                self.wf(),
                w == self.spec_width(),
                h == self.spec_height(),
                k <= h,
                out@ == top + self.top_rows(k as nat, live@, dead@),
            decreases h - k,
        {
            let y: u16 = h - 1 - k;
            let ghost before = out@;
            proof {
                reveal_strlit("|");
                reveal_strlit("|\n");
                assert("|"@ =~= seq!['|']);
                assert("|\n"@ =~= seq!['|', '\n']);
            }
            out.append("|");
            assert(out@ =~= before + seq!['|'] + self.row_glyphs(y as int, 0, live@, dead@));
            let mut x: u16 = 0;
            while x < w
                invariant
                    self.wf(),
                    w == self.spec_width(),
                    h == self.spec_height(),
                    y < h,
                    x <= w,
                    out@ == before + seq!['|'] + self.row_glyphs(y as int, x as nat, live@, dead@),
                decreases w - x,
            {
                let g = if self.get(x, y).is_alive() {
                    live
                } else {
                    dead
                };
                out.append(g);
                x = x + 1;
                assert(out@ =~= before + seq!['|'] + self.row_glyphs(y as int, x as nat, live@, dead@));
            }
            out.append("|\n");
            assert(out@ =~= before + self.row_line(y as int, live@, dead@));
            k = k + 1;
            assert(out@ =~= top + self.top_rows(k as nat, live@, dead@));
        }
        out.append(line.as_str());
        assert(out@ =~= self.rendered(live@, dead@));
        out
    }

    /// The grid as text for the console: a header with its size, then the rows
    /// from the highest down between two borders, a live tile shown as a star
    /// (in bright red where the terminal takes colours) and a dead one as a blank.
    pub fn console_output(&self) -> (r: String)
        requires
            self.wf(),
        ensures
            exists|live: Seq<char>| is_live_glyph(live) && r@ == self.rendered(live, seq![' ']),
    {
        let live = Tile::Alive.console_output();
        let dead = Tile::Dead.console_output();
        self.render(live.as_str(), dead.as_str())
    }
}

} // verus!
