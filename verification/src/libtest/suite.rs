//! A file of tests: the server to test, and the tests in the order the
//! file lists them.
use vstd::prelude::*;
use vstd::string::StringExecFns;
use crate::text::{str_chars, string_from_chars};
use crate::libtest::document::{TomlValue, TestFileError, toml_get, toml_document, parse_toml, test_file_error_text};
use crate::libtest::structures::{Config, ConfigView, config_spec};
use crate::libtest::test_case::{Test, TestView, test_spec};
use crate::libtest::textops::{
    trim, split_on, contains_text, split_chars, trim_chars, contains_chars, occurs_at_chars,
};

verus! {

/// The tests of a file, and the server they are sent to.
pub struct Tests {
    pub config: Config,
    pub tests: Vec<Test>,
}

/// A file of tests, as plain values.
pub struct TestsView {
    pub config: ConfigView,
    pub tests: Seq<TestView>,
}

/// The views of a list of tests.
pub open spec fn test_views(v: Seq<Test>) -> Seq<TestView> {
    v.map_values(|t: Test| t@)
}

impl View for Tests {
    type V = TestsView;

    open spec fn view(&self) -> TestsView {
        TestsView { config: self.config@, tests: test_views(self.tests@) }
    }
}

/// The name of the test that a piece of the file (split at `[`) is the
/// header of: a piece that mentions `tests` but not `req`, trimmed, that
/// ends in `]` and starts with `tests.`, names the test after `tests.`.
pub open spec fn piece_test_name(p: Seq<char>) -> Option<Seq<char>> {
    if contains_text(p, "tests"@) && !contains_text(p, "req"@) {
        let t = trim(p);
        if t.len() > 0 && t.last() == ']' {
            let u = t.drop_last();
            let prefix = "tests."@;
            if prefix.len() <= u.len() && u.take(prefix.len() as int) == prefix {
                Some(u.skip(prefix.len() as int))
            } else {
                None
            }
        } else {
            None
        }
    } else {
        None
    }
}

/// The test names that the pieces give, in order.
pub open spec fn names_in(pieces: Seq<Seq<char>>) -> Seq<Seq<char>>
    decreases pieces.len(),
{
    if pieces.len() == 0 {
        Seq::empty()
    } else {
        match piece_test_name(pieces.last()) {
            Some(n) => names_in(pieces.drop_last()).push(n),
            None => names_in(pieces.drop_last()),
        }
    }
}

/// The names of the tests in the order the file's headers list them.
pub open spec fn file_test_names(file: Seq<char>) -> Seq<Seq<char>> {
    names_in(split_on(file, '['))
}

/// The first position at or after `i` of a test named `name`.
pub open spec fn named_from(tests: Seq<TestView>, name: Seq<char>, i: nat) -> Option<int>
    decreases tests.len() - i,
{
    if i >= tests.len() {
        None
    } else if tests[i as int].name == name {
        Some(i as int)
    } else {
        named_from(tests, name, i + 1)
    }
}

/// The tests taken out by name, in the order of `names`, and the tests left:
/// for each name, the first test left with that name is taken out.
pub open spec fn sort_by_names(tests: Seq<TestView>, names: Seq<Seq<char>>) -> (Seq<TestView>, Seq<TestView>)
    decreases names.len(),
{
    if names.len() == 0 {
        (Seq::empty(), tests)
    } else {
        let (sorted, rest) = sort_by_names(tests, names.drop_last());
        match named_from(rest, names.last(), 0) {
            Some(i) => (sorted.push(rest[i]), rest.remove(i)),
            None => (sorted, rest),
        }
    }
}

/// The tests in the order of `names`, then the others in their order.
pub open spec fn sorted_tests(tests: Seq<TestView>, names: Seq<Seq<char>>) -> Seq<TestView> {
    sort_by_names(tests, names).0 + sort_by_names(tests, names).1
}

/// The tests of the `tests` table, in its order, or the first one's failure.
pub open spec fn tests_of(entries: Seq<(String, TomlValue)>) -> Result<Seq<TestView>, TestFileError>
    decreases entries.len(),
{
    if entries.len() == 0 {
        Ok(Seq::empty())
    } else {
        match tests_of(entries.drop_last()) {
            Err(e) => Err(e),
            Ok(prefix) => match test_spec(entries.last().0@, entries.last().1) {
                Err(e) => Err(e),
                Ok(t) => Ok(prefix.push(t)),
            },
        }
    }
}

/// A file of tests, as its document and text give it: the tests of the
/// `tests` table, then the server of the `config` table; the tests are put
/// in the order of the file's headers.
pub open spec fn tests_spec(doc: TomlValue, file: Seq<char>) -> Result<TestsView, TestFileError> {
    match toml_get(doc, "tests"@) {
        Some(TomlValue::Table(entries)) => match tests_of(entries@) {
            Err(e) => Err(e),
            Ok(tests) => match config_spec(doc) {
                Err(e) => Err(e),
                Ok(config) => Ok(TestsView { config, tests: sorted_tests(tests, file_test_names(file)) }),
            },
        },
        _ => Err(TestFileError::NoTests),
    }
}

/// Once a prefix of the tests fails, the whole table fails the same way.
proof fn lemma_tests_error_stays(entries: Seq<(String, TomlValue)>, n: nat, e: TestFileError)
    requires
        n <= entries.len(),
        tests_of(entries.take(n as int)) == Err::<Seq<TestView>, TestFileError>(e),
    ensures
        tests_of(entries) == Err::<Seq<TestView>, TestFileError>(e),
    decreases entries.len() - n,
{
    if n < entries.len() {
        assert(entries.take((n + 1) as int).drop_last() =~= entries.take(n as int));
        lemma_tests_error_stays(entries, n + 1, e);
    } else {
        assert(entries.take(n as int) =~= entries);
    }
}

/// The test name that a piece of the file gives, if any.
fn piece_name(p: &Vec<char>) -> (res: Option<Vec<char>>)
    ensures
        res matches Some(n) ==> piece_test_name(p@) == Some(n@),
        res is None ==> piece_test_name(p@) is None,
{
    let tests_word = str_chars("tests");
    let req_word = str_chars("req");
    if !contains_chars(p, &tests_word) || contains_chars(p, &req_word) {
        return None;
    }
    let t = trim_chars(p);
    if t.len() == 0 || t[t.len() - 1] != ']' {
        return None;
    }
    let mut u = t;
    u.pop();
    proof {
        assert(u@ =~= trim(p@).drop_last());
    }
    let prefix = str_chars("tests.");
    if !occurs_at_chars(&u, &prefix, 0) {
        return None;
    }
    let mut name: Vec<char> = Vec::new();
    let mut k: usize = prefix.len();
    while k < u.len()
        invariant
            prefix@.len() <= k <= u@.len(),
            name@ == u@.subrange(prefix@.len() as int, k as int),
        decreases u@.len() - k,
    {
        name.push(u[k]);
        assert(name@ =~= u@.subrange(prefix@.len() as int, k + 1));
        k = k + 1;
    }
    assert(u@.take(prefix@.len() as int) =~= u@.subrange(0, prefix@.len() as int));
    assert(name@ =~= u@.skip(prefix@.len() as int));
    Some(name)
}

/// The position of the first test named `name`.
fn find_named(tests: &Vec<Test>, name: &String) -> (res: Option<usize>)
    ensures
        res matches Some(i) ==> named_from(test_views(tests@), name@, 0) == Some(i as int) && i < tests@.len(),
        res is None ==> named_from(test_views(tests@), name@, 0) is None,
{
    let ghost views = test_views(tests@);
    let mut k: usize = 0;
    while k < tests.len()
        invariant
            k <= tests@.len(),
            views == test_views(tests@),
            named_from(views, name@, 0) == named_from(views, name@, k as nat),
        decreases tests@.len() - k,
    {
        if tests[k].name == *name {
            assert(named_from(views, name@, k as nat) == Some(k as int));
            return Some(k);
        }
        k = k + 1;
    }
    None
}

impl Tests {
    /// The tests of a file, and the server they are sent to.
    pub fn new(config: Config, tests: Vec<Test>) -> (res: Self)
        ensures
            res@ == (TestsView { config: config@, tests: test_views(tests@) }),
    {
        Tests { config, tests }
    }

    /// Put the tests in the order of the file's headers: the tests that
    /// `[tests.name]` headers name come first, in the headers' order, and the
    /// others follow in their order.
    pub fn sort_from_file(self, file: &str) -> (res: Self)
        ensures
            res@.config == self@.config,
            res@.tests == sorted_tests(self@.tests, file_test_names(file@)),
    {
        let chars = str_chars(file);
        let pieces = split_chars(&chars, '[');
        let ghost all_pieces = split_on(file@, '[');
        let mut names: Vec<Vec<char>> = Vec::new();
        let mut i: usize = 0;
        assert(all_pieces.take(0) =~= Seq::<Seq<char>>::empty());
        while i < pieces.len()
            invariant
                i <= pieces@.len(),
                pieces@.len() == all_pieces.len(),
                forall|k: int| 0 <= k < pieces@.len() ==> #[trigger] pieces@[k]@ == all_pieces[k],
                names@.len() == names_in(all_pieces.take(i as int)).len(),
                forall|k: int| 0 <= k < names@.len() ==> #[trigger] names@[k]@ == names_in(all_pieces.take(i as int))[k],
            decreases pieces@.len() - i,
        {
            proof {
                assert(all_pieces.take(i + 1).drop_last() =~= all_pieces.take(i as int));
                assert(all_pieces.take(i + 1).last() == all_pieces[i as int]);
            }
            let ghost old_names = names@;
            let ghost old_spec = names_in(all_pieces.take(i as int));
            match piece_name(&pieces[i]) {
                Some(n) => {
                    names.push(n);
                    proof {
                        let new_spec = names_in(all_pieces.take(i + 1));
                        assert(new_spec == old_spec.push(names@[old_names.len() as int]@)) by {
                            assert(names@.len() == old_names.len() + 1);
                        }
                        assert forall|k: int| 0 <= k < names@.len() implies #[trigger] names@[k]@ == new_spec[k] by {
                            if k < old_names.len() {
                                assert(names@[k] == old_names[k]);
                            }
                        }
                    }
                },
                None => {},
            }
            i = i + 1;
        }
        assert(all_pieces.take(all_pieces.len() as int) =~= all_pieces);
        let ghost all_names = file_test_names(file@);
        let Tests { config, tests } = self;
        let ghost given = test_views(tests@);
        let mut rest = tests;
        let mut sorted: Vec<Test> = Vec::new();
        let mut j: usize = 0;
        assert(all_names.take(0) =~= Seq::<Seq<char>>::empty());
        assert(test_views(sorted@) =~= Seq::<TestView>::empty());
        while j < names.len()
            invariant
                j <= names@.len(),
                names@.len() == all_names.len(),
                forall|k: int| 0 <= k < names@.len() ==> #[trigger] names@[k]@ == all_names[k],
                sort_by_names(given, all_names.take(j as int)) == (test_views(sorted@), test_views(rest@)),
            decreases names@.len() - j,
        {
            proof {
                assert(all_names.take(j + 1).drop_last() =~= all_names.take(j as int));
                assert(all_names.take(j + 1).last() == all_names[j as int]);
            }
            let name = string_from_chars(names[j].as_slice());
            let ghost rest_views = test_views(rest@);
            let found = find_named(&rest, &name);
            let ghost old_sorted = test_views(sorted@);
            match found {
                Some(at) => {
                    let t = rest.remove(at);
                    sorted.push(t);
                    proof {
                        assert(test_views(sorted@) =~= old_sorted.push(rest_views[at as int]));
                        assert(test_views(rest@) =~= rest_views.remove(at as int));
                    }
                },
                None => {},
            }
            j = j + 1;
        }
        assert(all_names.take(all_names.len() as int) =~= all_names);
        let ghost sorted_views = test_views(sorted@);
        let ghost rest_views = test_views(rest@);
        sorted.append(&mut rest);
        assert(test_views(sorted@) =~= sorted_views + rest_views);
        Tests { config, tests: sorted }
    }

    /// The tests of a test file, from its text.
    ///
    /// # Errors
    /// The TOML parser's message when the text is no TOML document; otherwise
    /// the message of the failure of [`Tests::from_document`].
    pub fn from_text(text: &str) -> (res: Result<Tests, String>)
        ensures
            toml_document(text@) is None ==> res is Err,
            toml_document(text@) matches Some(d) ==> match tests_spec(d, text@) {
                Ok(t) => (res matches Ok(r) && r@ == t),
                Err(e) => (res matches Err(m) && m@ == test_file_error_text(e)),
            },
    {
        let document = parse_toml(text)?;
        match Tests::from_document(&document, text) {
            Ok(tests) => Ok(tests),
            Err(e) => Err(String::from_str(e.message())),
        }
    }

    /// The tests of a test file, from its document and its text.
    ///
    /// # Errors
    /// No `tests` table, the first test that cannot be read, or a `config`
    /// table that cannot be read.
    pub fn from_document(document: &TomlValue, file: &str) -> (res: Result<Tests, TestFileError>)
        ensures
            res matches Ok(t) ==> tests_spec(*document, file@) == Ok::<TestsView, TestFileError>(t@),
            res matches Err(e) ==> tests_spec(*document, file@) == Err::<TestsView, TestFileError>(e),
    {
        let entries = match document.get(&String::from_str("tests")) {
            Some(TomlValue::Table(entries)) => entries,
            _ => return Err(TestFileError::NoTests),
        };
        let mut tests: Vec<Test> = Vec::new();
        let mut i: usize = 0;
        assert(entries@.take(0) =~= Seq::<(String, TomlValue)>::empty());
        assert(test_views(tests@) =~= Seq::<TestView>::empty());
        while i < entries.len()
            invariant
                i <= entries@.len(),
                tests@.len() == i,
                toml_get(*document, "tests"@) == Some(TomlValue::Table(*entries)),
                tests_of(entries@.take(i as int)) == Ok::<Seq<TestView>, TestFileError>(test_views(tests@)),
            decreases entries@.len() - i,
        {
            proof {
                assert(entries@.take(i + 1).drop_last() =~= entries@.take(i as int));
                assert(entries@.take(i + 1).last() == entries@[i as int]);
            }
            match Test::read(entries[i].0.clone(), &entries[i].1) {
                Ok(t) => {
                    let ghost before = test_views(tests@);
                    tests.push(t);
                    assert(test_views(tests@) =~= before.push(tests@[i as int]@));
                },
                Err(e) => {
                    proof { lemma_tests_error_stays(entries@, (i + 1) as nat, e); }
                    return Err(e);
                },
            }
            i = i + 1;
        }
        assert(entries@.take(entries@.len() as int) =~= entries@);
        let config = match Config::read(document) {
            Ok(c) => c,
            Err(e) => return Err(e),
        };
        Ok(Tests::new(config, tests).sort_from_file(file))
    }
}

/// A position that `named_from` finds is a position of the list at or after the start.
proof fn lemma_named_from_bounds(tests: Seq<TestView>, name: Seq<char>, i: nat)
    ensures
        named_from(tests, name, i) matches Some(k) ==> i <= k < tests.len(),
    decreases tests.len() - i,
{
    if i < tests.len() && tests[i as int].name != name {
        lemma_named_from_bounds(tests, name, i + 1);
    }
}

/// Putting the tests in the order of the file's headers neither drops nor
/// repeats a test: the sorted list holds the same tests, each as often.
pub proof fn lemma_sort_keeps_tests(tests: Seq<TestView>, names: Seq<Seq<char>>)
    ensures
        sorted_tests(tests, names).to_multiset() == tests.to_multiset(),
    decreases names.len(),
{
    broadcast use vstd::multiset::group_multiset_axioms;
    if names.len() == 0 {
        assert(Seq::<TestView>::empty() + tests =~= tests);
    } else {
        lemma_sort_keeps_tests(tests, names.drop_last());
        let (s, r) = sort_by_names(tests, names.drop_last());
        lemma_named_from_bounds(r, names.last(), 0);
        match named_from(r, names.last(), 0) {
            Some(i) => {
                let x = r[i];
                vstd::seq_lib::lemma_multiset_commutative(s.push(x), r.remove(i));
                vstd::seq_lib::lemma_multiset_commutative(s, r);
                vstd::seq_lib::to_multiset_build(s, x);
                vstd::seq_lib::to_multiset_remove(r, i);
                vstd::seq_lib::to_multiset_contains(r, x);
                assert(r.contains(x));
                assert(s.to_multiset().insert(x).add(r.to_multiset().remove(x)) =~= s.to_multiset().add(r.to_multiset()));
            },
            None => {},
        }
    }
}

/// Where no test from position `i` on has the name, `named_from` finds none.
proof fn lemma_named_from_none(tests: Seq<TestView>, name: Seq<char>, i: nat)
    requires
        forall|k: int| i <= k < tests.len() ==> #[trigger] tests[k].name != name,
    ensures
        named_from(tests, name, i) is None,
    decreases tests.len() - i,
{
    if i < tests.len() {
        lemma_named_from_none(tests, name, i + 1);
    }
}

/// When the headers name no test of the list, sorting leaves the list as it is.
pub proof fn lemma_sort_without_named_tests(tests: Seq<TestView>, names: Seq<Seq<char>>)
    requires
        forall|k: int, m: int| 0 <= k < tests.len() && 0 <= m < names.len() ==> #[trigger] tests[k].name != #[trigger] names[m],
    ensures
        sorted_tests(tests, names) == tests,
{
    lemma_sort_untouched(tests, names);
    assert(Seq::<TestView>::empty() + tests =~= tests);
}

proof fn lemma_sort_untouched(tests: Seq<TestView>, names: Seq<Seq<char>>)
    requires
        forall|k: int, m: int| 0 <= k < tests.len() && 0 <= m < names.len() ==> #[trigger] tests[k].name != #[trigger] names[m],
    ensures
        sort_by_names(tests, names) == (Seq::<TestView>::empty(), tests),
    decreases names.len(),
{
    if names.len() > 0 {
        assert forall|k: int, m: int| 0 <= k < tests.len() && 0 <= m < names.drop_last().len()
            implies #[trigger] tests[k].name != #[trigger] names.drop_last()[m] by {
            assert(names.drop_last()[m] == names[m]);
        }
        lemma_sort_untouched(tests, names.drop_last());
        assert forall|k: int| 0 <= k < tests.len() implies #[trigger] tests[k].name != names.last() by {
            assert(tests[k].name != names[names.len() - 1]);
        }
        lemma_named_from_none(tests, names.last(), 0);
    }
}

/// The test that the first header names (the first test of that name) comes
/// first after sorting.
pub proof fn lemma_sort_first_named(tests: Seq<TestView>, names: Seq<Seq<char>>, i: int)
    requires
        names.len() > 0,
        named_from(tests, names[0], 0) == Some(i),
    ensures
        sorted_tests(tests, names).len() > 0,
        sorted_tests(tests, names)[0] == tests[i],
{
    lemma_sort_first_taken(tests, names, i);
}

proof fn lemma_sort_first_taken(tests: Seq<TestView>, names: Seq<Seq<char>>, i: int)
    requires
        names.len() > 0,
        named_from(tests, names[0], 0) == Some(i),
    ensures
        sort_by_names(tests, names).0.len() > 0,
        sort_by_names(tests, names).0[0] == tests[i],
    decreases names.len(),
{
    if names.len() == 1 {
        assert(names.drop_last() =~= Seq::<Seq<char>>::empty());
        assert(names.last() == names[0]);
    } else {
        assert(names.drop_last()[0] == names[0]);
        lemma_sort_first_taken(tests, names.drop_last(), i);
    }
}

} // verus!
