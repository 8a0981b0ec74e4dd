//! The list of open windows that `hyprctl -j clients` prints, and what the
//! editor does with it: propose float rules for their classes, and find its
//! own window to float and centre it.
use vstd::prelude::*;
use crate::rows::{
    client_view, float_commands, float_window_commands, own_address, own_window_address,
};
use crate::rules::{float_rules_of, sorted_set_of, window_float_rules};

verus! {

broadcast use vstd::string::group_string_axioms;

/// What `serde_json` reads from `hyprctl -j clients` output: for a JSON
/// array, the `class` and `address` string fields of each element (absent
/// when the field is missing or not a string); nothing when the bytes are not
/// JSON or not an array.
pub uninterp spec fn json_clients(stdout: Seq<u8>) -> Option<
    Seq<(Option<Seq<char>>, Option<Seq<char>>)>,
>;

/// The (class, address) pairs of a client list, as plain values.
pub open spec fn clients_view(v: Seq<(Option<String>, Option<String>)>) -> Seq<
    (Option<Seq<char>>, Option<Seq<char>>),
> {
    v.map_values(|c| client_view(c))
}

/// Parses the bytes with `serde_json::from_slice` into a `serde_json::Value`,
/// takes it with `Value::as_array`, and reads each element's `class` and
/// `address` with `Value`'s index and `Value::as_str`. The contract claims
/// only that the result is a function of the bytes (`json_clients`), with
/// `None` for bytes that are not a JSON array; what that function is on given
/// bytes is serde_json's JSON grammar and is not stated here.
#[verifier::external_body]
fn clients_of(stdout: &[u8]) -> (r: Option<Vec<(Option<String>, Option<String>)>>)
    ensures
        match r {
            Some(v) => json_clients(stdout@) == Some(clients_view(v@)),
            None => json_clients(stdout@) is None,
        },
{
    let json: serde_json::Value = serde_json::from_slice(stdout).ok()?;
    let clients = json.as_array()?;
    Some(
        clients.iter().map(
            |c| (c["class"].as_str().map(String::from), c["address"].as_str().map(String::from)),
        ).collect(),
    )
}

/// The classes of the clients that report one, in order.
pub open spec fn classes_of(clients: Seq<(Option<Seq<char>>, Option<Seq<char>>)>) -> Seq<
    Seq<char>,
>
    decreases clients.len(),
{
    if clients.len() == 0 {
        Seq::empty()
    } else {
        let r = classes_of(clients.drop_last());
        match clients.last().0 {
            Some(c) => r.push(c),
            None => r,
        }
    }
}

/// The classes of the clients that report one, in order.
pub fn client_classes(clients: &Vec<(Option<String>, Option<String>)>) -> (r: Vec<String>)
    ensures
        r.deep_view() == classes_of(clients_view(clients@)),
{
    let ghost all = clients_view(clients@);
    let mut r: Vec<String> = Vec::new();
    let mut i: usize = 0;
    while i < clients.len()
        invariant
            i <= clients.len(),
            all == clients_view(clients@),
            r.deep_view() == classes_of(all.take(i as int)),
        decreases clients.len() - i,
    {
        assert(all.take(i + 1).drop_last() =~= all.take(i as int));
        assert(all.take(i + 1).last() == client_view(clients@[i as int]));
        match &clients[i].0 {
            Some(c) => {
                let ghost before = r.deep_view();
                r.push(c.clone());
                assert(r.deep_view() =~= before.push(c@));
            },
            None => {},
        }
        i = i + 1;
    }
    assert(all.take(clients.len() as int) =~= all);
    r
}

/// The float rules proposed for the windows of a client list: none when
/// there is no list.
pub fn client_window_rules(clients: &Option<Vec<(Option<String>, Option<String>)>>) -> (r: Vec<
    String,
>)
    ensures
        match clients {
            Some(v) => sorted_set_of(r.deep_view(), float_rules_of(classes_of(clients_view(v@)))),
            None => r.len() == 0,
        },
{
    match clients {
        Some(v) => {
            let classes = client_classes(v);
            window_float_rules(&classes)
        },
        None => Vec::new(),
    }
}

/// The float rules proposed for the open windows, read from the output of
/// `hyprctl -j clients`: sorted, each once, none when the output is not a
/// JSON array.
pub fn detected_window_rules(stdout: &[u8]) -> (r: Vec<String>)
    ensures
        match json_clients(stdout@) {
            Some(c) => sorted_set_of(r.deep_view(), float_rules_of(classes_of(c))),
            None => r.len() == 0,
        },
{
    let clients = clients_of(stdout);
    client_window_rules(&clients)
}

/// The `hyprctl` argument lists of several commands, as plain values.
pub open spec fn commands_view(r: Vec<Vec<String>>) -> Seq<Seq<Seq<char>>> {
    r@.map_values(|v: Vec<String>| v.deep_view())
}

/// The commands that float, size and centre the editor's window, given a
/// client list: none when there is no list or the window is not in it with
/// an address.
pub fn own_float_commands(clients: &Option<Vec<(Option<String>, Option<String>)>>) -> (r: Option<
    Vec<Vec<String>>,
>)
    ensures
        match clients {
            Some(v) => match own_address(clients_view(v@)) {
                Some(a) => r is Some && commands_view(r->0) == float_commands(a),
                None => r is None,
            },
            None => r is None,
        },
{
    match clients {
        Some(v) => match own_window_address(v) {
            Some(a) => Some(float_window_commands(a.as_str())),
            None => None,
        },
        None => None,
    }
}

/// The commands that float, size and centre the editor's window, read from
/// the output of `hyprctl -j clients`.
pub fn own_window_float_commands(stdout: &[u8]) -> (r: Option<Vec<Vec<String>>>)
    ensures
        match json_clients(stdout@) {
            Some(c) => match own_address(c) {
                Some(a) => r is Some && commands_view(r->0) == float_commands(a),
                None => r is None,
            },
            None => r is None,
        },
{
    let clients = clients_of(stdout);
    own_float_commands(&clients)
}

} // verus!
