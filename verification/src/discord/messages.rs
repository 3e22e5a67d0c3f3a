use vstd::prelude::*;

verus! {

/// A flavour line of the game's message catalog, to be rendered by the bot: the key of the
/// line and the values to put into it, in order.
#[derive(Debug)]
pub struct ChudMsg {
    pub key: &'static str,
    pub args: Vec<String>,
}

impl ChudMsg {
    pub open spec fn args_view(&self) -> Seq<Seq<char>> {
        self.args@.map_values(|s: String| s@)
    }
}

pub fn chud_msg_1(key: &'static str, a: String) -> (r: ChudMsg)
    ensures
        r.key == key,
        r.args_view() == seq![a@],
{
    let mut args: Vec<String> = Vec::new();
    args.push(a);
    let r = ChudMsg { key, args };
    assert(r.args_view() =~= seq![a@]);
    r
}

pub fn chud_msg_2(key: &'static str, a: String, b: String) -> (r: ChudMsg)
    ensures
        r.key == key,
        r.args_view() == seq![a@, b@],
{
    let mut args: Vec<String> = Vec::new();
    args.push(a);
    args.push(b);
    let r = ChudMsg { key, args };
    assert(r.args_view() =~= seq![a@, b@]);
    r
}

pub fn chud_msg_3(key: &'static str, a: String, b: String, c: String) -> (r: ChudMsg)
    ensures
        r.key == key,
        r.args_view() == seq![a@, b@, c@],
{
    let mut args: Vec<String> = Vec::new();
    args.push(a);
    args.push(b);
    args.push(c);
    let r = ChudMsg { key, args };
    assert(r.args_view() =~= seq![a@, b@, c@]);
    r
}

} // verus!
