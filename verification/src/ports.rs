//! Ports that were looked up by name or number. The outcome of each lookup is a port or a message.
use crate::text::{
    cat2, decimal, decimal_text, lemma_number_of_decimal, number_up_to, parse_number, texts, viewed,
};
use vstd::prelude::*;

verus! {

/// The outcome of looking a port up.
pub type Lookup = Result<Seq<char>, Seq<char>>;

/// The outcomes by their models.
pub open spec fn lookups(found: Seq<Result<String, String>>) -> Seq<Lookup> {
    found.map_values(|r: Result<String, String>| viewed(r))
}

/// A copy of an outcome.
pub fn copy_lookup(found: &Result<String, String>) -> (r: Result<String, String>)
    ensures
        viewed(r) == viewed(*found),
{
    match found {
        Ok(port) => Ok(port.clone()),
        Err(e) => Err(e.clone()),
    }
}

/// The port that is meant: the one with a number of the list or with a name of its own; where
/// nothing is asked for, the only one.
pub open spec fn port_meant(requested: Option<Seq<char>>, names: Seq<Seq<char>>) -> Lookup {
    match requested {
        None => if names.len() == 1 {
            Ok(names[0])
        } else if names.len() == 0 {
            Err("no serial ports found"@)
        } else {
            Err("several serial ports found; name one with --port"@)
        },
        Some(name) => match number_up_to(name, usize::MAX as nat) {
            Some(n) => if n < names.len() {
                Ok(names[n as int])
            } else {
                Err("serial port index out of range: "@ + decimal(n))
            },
            None => Ok(name),
        },
    }
}

/// Finds the port that is meant among the names of the ports that are there.
pub fn resolve_port(requested: Option<&str>, names: &Vec<String>) -> (r: Result<String, String>)
    ensures
        viewed(r) == port_meant(requested.deep_view(), texts(names@)),
{
    match requested {
        None => if names.len() == 1 {
            Ok(names[0].clone())
        } else if names.len() == 0 {
            Err("no serial ports found".to_owned())
        } else {
            Err("several serial ports found; name one with --port".to_owned())
        },
        Some(name) => match parse_number(name, usize::MAX as u64) {
            Some(n) => if n < names.len() as u64 {
                Ok(names[n as usize].clone())
            } else {
                Err(cat2("serial port index out of range: ", decimal_text(n).as_str()))
            },
            None => Ok(name.to_owned()),
        },
    }
}

/// The number under which a port is listed means that port.
pub proof fn law_listed_number_means_the_port(names: Seq<Seq<char>>, i: nat)
    requires
        i < names.len() <= usize::MAX,
    ensures
        port_meant(Some(decimal(i)), names) == Ok::<Seq<char>, Seq<char>>(names[i as int]),
{
    lemma_number_of_decimal(i);
}

} // verus!
