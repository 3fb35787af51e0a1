//! Example scenarios for generated tests: a name, toylang code, and the Rust code that it
//! compiles to.
use crate::text;
use vstd::prelude::*;

verus! {

/// A list of example scenarios.
pub struct ExampleTests {
    pub tests: Vec<(String, String, String)>,
}

/// The example scenarios as plain values.
pub open spec fn example_scenarios() -> Seq<(Seq<char>, Seq<char>, Seq<char>)> {
    seq![
        ("test_pass_empty_file"@, ""@, "fn main() {\r\n}\r\n"@),
        ("test2"@, "c"@, "d"@),
        ("test3"@, "e"@, "f"@),
        ("test4"@, "g"@, "h"@),
    ]
}

/// A scenario from three literals.
fn scenario(name: &str, code: &str, rust: &str) -> (t: (String, String, String))
    ensures
        t.0@ == name@,
        t.1@ == code@,
        t.2@ == rust@,
{
    (text::lit(name), text::lit(code), text::lit(rust))
}

impl ExampleTests {
    /// The example scenarios (see `example_scenarios`).
    pub fn new() -> (e: ExampleTests)
        ensures
            e.tests@.map_values(|t: (String, String, String)| (t.0@, t.1@, t.2@)) == example_scenarios(),
    {
        let mut tests: Vec<(String, String, String)> = Vec::new();
        tests.push(scenario("test_pass_empty_file", "", "fn main() {\r\n}\r\n"));
        tests.push(scenario("test2", "c", "d"));
        tests.push(scenario("test3", "e", "f"));
        tests.push(scenario("test4", "g", "h"));
        assert(tests@.map_values(|t: (String, String, String)| (t.0@, t.1@, t.2@)) =~= example_scenarios());
        ExampleTests { tests }
    }
}

} // verus!
