//! Player input that is not geometry: typing into the login form, which
//! buildings the tool bar offers, where the player may walk, and which gauges
//! the hover panel shows.

use vstd::prelude::*;
use crate::tool::{Tool, tool_order, tool_category};
use crate::terrain::Terrain;

verus! {

/// The login screen's three text fields (server address, user name,
/// password) and the index of the field being typed into.
pub struct LoginForm {
    pub server_url: Vec<char>,
    pub username: Vec<char>,
    pub password: Vec<char>,
    pub focus: usize,
}

pub open spec fn field(f: LoginForm, i: int) -> Seq<char> {
    if i == 0 {
        f.server_url@
    } else if i == 1 {
        f.username@
    } else {
        f.password@
    }
}

/// A character that a field accepts: printable ASCII.
pub open spec fn printable(ch: char) -> bool {
    ' ' <= ch <= '~'
}

/// The field contents after a key: backspace drops the last character of the
/// field in focus, a printable character is appended to it.
pub open spec fn edited(s: Seq<char>, ch: char) -> Seq<char> {
    if ch == '\u{8}' {
        if s.len() > 0 { s.drop_last() } else { s }
    } else if printable(ch) {
        s.push(ch)
    } else {
        s
    }
}

impl LoginForm {
    /// An empty form on `server_url`, with the user-name field in focus.
    pub fn new(server_url: Vec<char>) -> (f: LoginForm)
        ensures
            f.server_url@ == server_url@,
            f.username@.len() == 0,
            f.password@.len() == 0,
            f.focus == 1,
    {
        LoginForm { server_url, username: Vec::new(), password: Vec::new(), focus: 1 }
    }

    /// Handles one typed character: tab moves the focus to the next field
    /// (after the last, back to the first); other keys edit the field in focus.
    pub fn type_char(&mut self, ch: char)
        ensures
            ch == '\t' ==> final(self).focus == (old(self).focus + 1) % 3,
            ch != '\t' ==> final(self).focus == old(self).focus,
            forall|i: int| 0 <= i < 3 ==> #[trigger] field(*final(self), i)
                == if ch != '\t' && i == old(self).focus { edited(field(*old(self), i), ch) } else { field(*old(self), i) },
    {
        if ch == '\t' {
            self.focus = (self.focus % 3 + 1) % 3;
        } else if ch == '\u{8}' {
            if self.focus == 0 {
                self.server_url.pop();
            } else if self.focus == 1 {
                self.username.pop();
            } else if self.focus == 2 {
                self.password.pop();
            }
        } else if ' ' <= ch && ch <= '~' {
            if self.focus == 0 {
                self.server_url.push(ch);
            } else if self.focus == 1 {
                self.username.push(ch);
            } else if self.focus == 2 {
                self.password.push(ch);
            }
        }
    }
}

/// The buildings of a tool-bar category, in tool-bar order.
pub fn tools_in_category(category: usize) -> (r: Vec<Tool>)
    ensures
        r@ == tool_order().filter(|t: Tool| tool_category(t) == category),
{
    let all = Tool::all();
    let mut r: Vec<Tool> = Vec::new();
    let mut i: usize = 0;
    while i < all.len()
        invariant
            all@ == tool_order(),
            i <= all@.len(),
            r@ == tool_order().subrange(0, i as int).filter(|t: Tool| tool_category(t) == category),
        decreases all@.len() - i,
    {
        let t = all[i];
        proof {
            let pre = tool_order().subrange(0, i as int + 1);
            assert(pre.drop_last() =~= tool_order().subrange(0, i as int));
            assert(pre.last() == t);
            reveal(Seq::filter);
        }
        if t.category() == category {
            r.push(t);
        }
        i = i + 1;
    }
    proof {
        assert(tool_order().subrange(0, tool_order().len() as int) =~= tool_order());
    }
    r
}

/// Whether the player may step onto a cell of terrain `terrain` holding the
/// building `building`: water only over a street, and a built cell only over
/// a street, belt, pipe or power pole.
pub open spec fn walkable_spec(terrain: Terrain, building: Option<Tool>) -> bool {
    &&& !(terrain == Terrain::Water && building != Some(Tool::Street))
    &&& match building {
        Some(t) => t == Tool::Street || t == Tool::ConveyorIron || t == Tool::Pipe || t == Tool::Node,
        None => true,
    }
}

pub fn can_walk_onto(terrain: Terrain, building: Option<Tool>) -> (r: bool)
    ensures
        r == walkable_spec(terrain, building),
{
    if terrain == Terrain::Water && building != Some(Tool::Street) {
        return false;
    }
    match building {
        Some(t) => matches!(t, Tool::Street | Tool::ConveyorIron | Tool::Pipe | Tool::Node),
        None => true,
    }
}

/// Which readings the hover panel shows for a building: fuel for coal plants
/// and reactors, heat for reactors, charge for batteries.
pub struct Gauges {
    pub fuel: bool,
    pub heat: bool,
    pub charge: bool,
}

pub fn hover_gauges(t: Tool) -> (g: Gauges)
    ensures
        g.fuel == (t == Tool::CoalPlant || t == Tool::Nuclear),
        g.heat == (t == Tool::Nuclear),
        g.charge == (t == Tool::Battery),
{
    Gauges {
        fuel: t == Tool::CoalPlant || t == Tool::Nuclear,
        heat: t == Tool::Nuclear,
        charge: t == Tool::Battery,
    }
}

} // verus!
