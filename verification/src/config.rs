//! The run configuration: the image paths to process, and whether only
//! the usage text was asked for.

use vstd::prelude::*;

use crate::text::string_eq_str;

verus! {

/// What one invocation should do: read the metadata of these image paths,
/// or print the usage text instead.
#[derive(Debug)]
pub struct Config {
    image_paths: Vec<String>,
    print_help: bool,
}

/// The mathematical shape of a [`Config`].
pub struct ConfigView {
    pub image_paths: Seq<Seq<char>>,
    pub print_help: bool,
}

impl View for Config {
    type V = ConfigView;

    closed spec fn view(&self) -> ConfigView {
        ConfigView {
            image_paths: self.image_paths@.map_values(|s: String| s@),
            print_help: self.print_help,
        }
    }
}

impl Config {
    /// A configuration that processes exactly the given paths, in order.
    pub fn from_strings(strings: Vec<String>) -> (c: Config)
        ensures
            c@.image_paths == strings@.map_values(|s: String| s@),
            !c@.print_help,
    {
        Config { image_paths: strings, print_help: false }
    }

    /// Reads a raw argument list, whose first element is the program name.
    /// With no further argument the list is refused; with `-h` or `--help`
    /// first, only the usage text is asked for; otherwise every argument
    /// after the program name is an image path, in order.
    pub fn from_args(args: Vec<String>) -> (r: Result<Config, String>)
        ensures
            match r {
                Ok(c) => args@.len() >= 2 && ({
                    if args@[1]@ == "-h"@ || args@[1]@ == "--help"@ {
                        c@.print_help && c@.image_paths.len() == 0
                    } else {
                        !c@.print_help && c@.image_paths == args@.skip(1).map_values(
                            |s: String| s@,
                        )
                    }
                }),
                Err(_) => args@.len() < 2,
            },
    {
        if args.len() < 2 {
            return Err(
                String::from_str(
                    "Not enough arguments.  Provide at least one path to an image file to read.",
                ),
            );
        }
        if string_eq_str(&args[1], "-h") || string_eq_str(&args[1], "--help") {
            return Ok(Config { image_paths: Vec::new(), print_help: true });
        }
        let n = args.len();
        let mut paths: Vec<String> = Vec::new();
        let mut i: usize = 1;
        while i < n
            invariant
                1 <= i <= n,
                n == args@.len(),
                paths@.len() == i - 1,
                forall|k: int| 0 <= k < i - 1 ==> paths@[k]@ == args@[k + 1]@,
            decreases n - i,
        {
            let p = clone_string(&args[i]);
            paths.push(p);
            i = i + 1;
        }
        proof {
            assert(paths@.map_values(|s: String| s@) =~= args@.skip(1).map_values(
                |s: String| s@,
            ));
        }
        Ok(Config { image_paths: paths, print_help: false })
    }

    /// The image paths to process, in order.
    pub fn image_paths(&self) -> (r: &Vec<String>)
        ensures
            r@.map_values(|s: String| s@) == self@.image_paths,
    {
        &self.image_paths
    }

    /// True when only the usage text was asked for.
    pub fn print_help(&self) -> (r: bool)
        ensures
            r == self@.print_help,
    {
        self.print_help
    }
}

/// A copy of a string with the same characters.
fn clone_string(s: &String) -> (r: String)
    ensures
        r@ == s@,
{
    s.clone()
}

} // verus!
