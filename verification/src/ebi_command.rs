use vstd::prelude::*;
use crate::ebi_input::EbiInputType;
use crate::text::{dedup_first, string_views};

verus! {

/// One command of the host's command tree, as this core sees it: the
/// sequence of subcommand names that reaches the command, and, per
/// parameter position, the ordered list of slot alternatives the command
/// declares it accepts.
pub struct EbiCommandPath {
    pub path: Vec<String>,
    pub input_types: Vec<Vec<EbiInputType>>,
}

impl EbiCommandPath {
    /// Whether some parameter of the command lists the given slot type
    /// among its alternatives.
    pub open spec fn accepts_input_type(self, it: EbiInputType) -> bool {
        exists|j: int, k: int|
            0 <= j < self.input_types@.len() && 0 <= k < self.input_types@[j]@.len()
                && #[trigger] self.input_types@[j]@[k] == it
    }

    /// The subcommand names of the path.
    pub open spec fn path_view(self) -> Seq<Seq<char>> {
        string_views(self.path@)
    }

    /// Whether some parameter of the command lists the given slot type
    /// among its alternatives.
    pub fn accepts(&self, it: &EbiInputType) -> (r: bool)
        ensures
            r == self.accepts_input_type(*it),
    {
        let mut j: usize = 0;
        while j < self.input_types.len()
            invariant
                0 <= j <= self.input_types@.len(),
                forall|j2: int, k2: int|
                    0 <= j2 < j && 0 <= k2 < self.input_types@[j2]@.len()
                        ==> #[trigger] self.input_types@[j2]@[k2] != *it,
            decreases self.input_types@.len() - j,
        {
            let alternatives = &self.input_types[j];
            let mut k: usize = 0;
            while k < alternatives.len()
                invariant
                    0 <= j < self.input_types@.len(),
                    0 <= k <= alternatives@.len(),
                    alternatives == self.input_types@[j as int],
                    forall|k2: int|
                        0 <= k2 < k ==> #[trigger] self.input_types@[j as int]@[k2] != *it,
                decreases alternatives@.len() - k,
            {
                if alternatives[k] == *it {
                    assert(self.input_types@[j as int]@[k as int] == *it);
                    return true;
                }
                k = k + 1;
            }
            j = j + 1;
        }
        false
    }
}

/// The name sequences of a sequence of command paths.
pub open spec fn paths_views(s: Seq<Vec<String>>) -> Seq<Seq<Seq<char>>> {
    s.map_values(|p: Vec<String>| string_views(p@))
}

/// The paths, in tree order, of the commands that declare the given slot
/// type among the alternatives of some parameter; repetitions are kept.
pub open spec fn applicable_command_paths(
    commands: Seq<EbiCommandPath>,
    it: EbiInputType,
) -> Seq<Seq<Seq<char>>>
    decreases commands.len(),
{
    if commands.len() == 0 {
        Seq::empty()
    } else {
        applicable_command_paths(commands.drop_last(), it) + if commands.last().accepts_input_type(
            it,
        ) {
            seq![commands.last().path_view()]
        } else {
            Seq::empty()
        }
    }
}

/// Whether the two paths hold the same names.
fn string_vec_eq(a: &Vec<String>, b: &Vec<String>) -> (r: bool)
    ensures
        r == (string_views(a@) == string_views(b@)),
{
    if a.len() != b.len() {
        proof {
            assert(string_views(a@).len() == a@.len());
            assert(string_views(b@).len() == b@.len());
        }
        return false;
    }
    let mut i: usize = 0;
    while i < a.len()
        invariant
            0 <= i <= a@.len(),
            a@.len() == b@.len(),
            forall|k: int| 0 <= k < i ==> #[trigger] string_views(a@)[k] == string_views(b@)[k],
        decreases a@.len() - i,
    {
        if a[i] != b[i] {
            proof {
                assert(string_views(a@)[i as int] != string_views(b@)[i as int]);
            }
            return false;
        }
        proof {
            assert(string_views(a@)[i as int] == string_views(b@)[i as int]);
        }
        i = i + 1;
    }
    proof {
        assert(string_views(a@) =~= string_views(b@));
    }
    true
}

/// Whether some path of `v` holds the same names as `p`.
fn contains_path(v: &Vec<Vec<String>>, p: &Vec<String>) -> (r: bool)
    ensures
        r == paths_views(v@).contains(string_views(p@)),
{
    let mut i: usize = 0;
    while i < v.len()
        invariant
            0 <= i <= v@.len(),
            forall|k: int| 0 <= k < i ==> paths_views(v@)[k] != string_views(p@),
        decreases v@.len() - i,
    {
        if string_vec_eq(&v[i], p) {
            assert(paths_views(v@)[i as int] == string_views(p@));
            return true;
        }
        i = i + 1;
    }
    assert(forall|k: int| 0 <= k < v@.len() ==> paths_views(v@)[k] != string_views(p@));
    false
}

/// An identical copy of a path.
fn clone_strings(v: &Vec<String>) -> (r: Vec<String>)
    ensures
        string_views(r@) == string_views(v@),
{
    let mut r: Vec<String> = Vec::new();
    let mut i: usize = 0;
    while i < v.len()
        invariant
            0 <= i <= v@.len(),
            string_views(r@) =~= string_views(v@).take(i as int),
        decreases v@.len() - i,
    {
        let s = v[i].clone();
        let ghost prev = r@;
        r.push(s);
        proof {
            assert(string_views(prev).len() == i);
            assert forall|k: int| 0 <= k <= i implies string_views(r@)[k] == string_views(
                v@,
            ).take(i + 1 as int)[k] by {
                if k < i {
                    assert(r@[k] == prev[k]);
                    assert(string_views(prev)[k] == string_views(v@).take(i as int)[k]);
                } else {
                    assert(r@[k] == s);
                }
            }
            assert(string_views(r@) =~= string_views(v@).take(i + 1 as int));
        }
        i = i + 1;
    }
    proof {
        assert(string_views(v@).take(v@.len() as int) =~= string_views(v@));
    }
    r
}

impl EbiInputType {
    /// The distinct paths of the commands whose declared alternatives, for
    /// some parameter, contain this slot type. The scan walks the command
    /// tree in order; each path is listed once.
    pub fn get_applicable_commands(&self, commands: &Vec<EbiCommandPath>) -> (r: Vec<Vec<String>>)
        ensures
            paths_views(r@) == dedup_first(applicable_command_paths(commands@, *self)),
    {
        let mut r: Vec<Vec<String>> = Vec::new();
        let mut c: usize = 0;
        while c < commands.len()
            invariant
                0 <= c <= commands@.len(),
                paths_views(r@) =~= dedup_first(
                    applicable_command_paths(commands@.take(c as int), *self),
                ),
            decreases commands@.len() - c,
        {
            let ghost base = applicable_command_paths(commands@.take(c as int), *self);
            proof {
                assert(commands@.take(c + 1 as int).drop_last() =~= commands@.take(c as int));
                assert(commands@.take(c + 1 as int).last() == commands@[c as int]);
            }
            let command = &commands[c];
            if command.accepts(self) {
                proof {
                    assert(applicable_command_paths(commands@.take(c + 1 as int), *self) =~= base
                        + seq![command.path_view()]);
                    assert((base + seq![command.path_view()]).drop_last() =~= base);
                    assert((base + seq![command.path_view()]).last() == command.path_view());
                }
                if !contains_path(&r, &command.path) {
                    let p = clone_strings(&command.path);
                    let ghost prev = r@;
                    r.push(p);
                    proof {
                        assert(paths_views(prev).len() == prev.len());
                        assert forall|k: int| 0 <= k < prev.len() + 1 implies paths_views(r@)[k]
                            == dedup_first(base).push(command.path_view())[k] by {
                            if k < prev.len() {
                                assert(r@[k] == prev[k]);
                                assert(paths_views(prev)[k] == dedup_first(base)[k]);
                            } else {
                                assert(r@[k] == p);
                                assert(string_views(p@) == command.path_view());
                            }
                        }
                        assert(paths_views(r@) =~= dedup_first(base).push(command.path_view()));
                    }
                }
            } else {
                proof {
                    assert(applicable_command_paths(commands@.take(c + 1 as int), *self) =~= base);
                }
            }
            c = c + 1;
        }
        proof {
            assert(commands@.take(commands@.len() as int) =~= commands@);
        }
        r
    }
}

} // verus!
