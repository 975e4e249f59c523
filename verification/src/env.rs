//! Central parsing of the command-line parameters.
//!
//! The kernel's command line is split into words as a shell would split it,
//! then read from left to right: device descriptions of the form
//! `virtio_mmio.device=...`, the options `-freq`, `-ip`, `-mask`, `-gateway`
//! and `-mount` with their values, `--` followed by the application's
//! arguments, and the path of the image.

use vstd::prelude::*;

use crate::parse::{parse_unsigned, spec_parse_unsigned};

verus! {

/// The words `shell_words::split` splits `line` into, `None` where it
/// reports a missing closing quote.
pub uninterp spec fn shell_split(line: Seq<char>) -> Option<Seq<Seq<char>>>;

/// The text of each string of `v`.
pub open spec fn string_views(v: Seq<String>) -> Seq<Seq<char>> {
    v.map_values(|s: String| s@)
}

/// Splits `line` into words with `shell_words::split`: the words it returns,
/// `None` where it fails.
#[verifier::external_body]
fn split_words(line: &str) -> (r: Option<Vec<String>>)
    ensures
        r is Some <==> shell_split(line@) is Some,
        r matches Some(w) ==> string_views(w@) == shell_split(line@)->0,
{
    shell_words::split(line).ok()
}

/// The environment variables set on the command line, held in a
/// `hashbrown::HashMap` with a fixed `ahash::RandomState`.
#[verifier::external_body]
pub struct EnvVars {
    map: hashbrown::HashMap<String, String, ahash::RandomState>,
}

/// The variables `vars` holds, each name with its value.
pub uninterp spec fn env_vars_map(vars: EnvVars) -> Map<Seq<char>, Seq<char>>;

impl EnvVars {
    /// An empty map: `HashMap::with_hasher` with `RandomState::with_seeds(0, 0, 0, 0)`.
    #[verifier::external_body]
    fn new() -> (r: EnvVars)
        ensures
            env_vars_map(r).dom() == Set::<Seq<char>>::empty(),
    {
        EnvVars { map: hashbrown::HashMap::with_hasher(ahash::RandomState::with_seeds(0, 0, 0, 0)) }
    }

    /// `HashMap::insert`: sets `key` to `value`, replacing an earlier value.
    #[verifier::external_body]
    fn insert(&mut self, key: String, value: String)
        ensures
            env_vars_map(*final(self)) == env_vars_map(*old(self)).insert(key@, value@),
    {
        self.map.insert(key, value);
    }

    /// `HashMap::get`: the value of `key`, if it is set.
    #[verifier::external_body]
    fn get(&self, key: &str) -> (r: Option<&String>)
        ensures
            r is Some <==> env_vars_map(*self).contains_key(key@),
            r matches Some(v) ==> v@ == env_vars_map(*self)[key@],
    {
        self.map.get(key)
    }

    /// The variables, each as a pair of name and value, in the order in
    /// which `HashMap::iter` walks them.
    #[verifier::external_body]
    fn pairs(&self) -> (r: Vec<(String, String)>)
        ensures
            forall|i: int|
                0 <= i < r@.len() ==> {
                    &&& env_vars_map(*self).contains_key((#[trigger] r@[i]).0@)
                    &&& env_vars_map(*self)[r@[i].0@] == r@[i].1@
                },
            forall|i: int, j: int| 0 <= i < j < r@.len() ==> (#[trigger] r@[i]).0@ != (#[trigger] r@[j]).0@,
            forall|k: Seq<char>|
                #[trigger] env_vars_map(*self).contains_key(k) ==> exists|i: int|
                    0 <= i < r@.len() && (#[trigger] r@[i]).0@ == k,
    {
        self.map.iter().map(|(k, v)| (k.clone(), v.clone())).collect()
    }
}

/// What the command line sets.
pub struct CliView {
    /// The first word that is neither an option nor a value of one.
    pub image_path: Option<Seq<char>>,
    /// The CPU frequency in MHz given with `-freq`.
    pub freq: Option<u16>,
    /// The environment variables given with `-ip`, `-mask`, `-gateway` and `-mount`.
    pub env_vars: Map<Seq<char>, Seq<char>>,
    /// The words after `--`.
    pub args: Seq<Seq<char>>,
    /// The device descriptions given with `virtio_mmio.device=`.
    pub mmio: Seq<Seq<char>>,
}

/// The parsed command line.
pub struct Cli {
    image_path: Option<String>,
    freq: Option<u16>,
    env_vars: EnvVars,
    args: Vec<String>,
    mmio: Vec<String>,
}

/// The text of an optional string.
pub open spec fn opt_view(s: Option<String>) -> Option<Seq<char>> {
    match s {
        Some(s) => Some(s@),
        None => None,
    }
}

impl View for Cli {
    type V = CliView;

    closed spec fn view(&self) -> CliView {
        CliView {
            image_path: opt_view(self.image_path),
            freq: self.freq,
            env_vars: env_vars_map(self.env_vars),
            args: string_views(self.args@),
            mmio: string_views(self.mmio@),
        }
    }
}

/// Why a command line cannot be read.
#[derive(Debug)]
pub enum CliError {
    /// A quote is not closed.
    Unparsable,
    /// The option with this name is the last word, without its value.
    MissingValue(String),
    /// The value of `-freq` is not a number of at most 65535.
    InvalidFreq(String),
}

/// What a [`CliError`] says.
pub enum CliErrorView {
    Unparsable,
    MissingValue(Seq<char>),
    InvalidFreq(Seq<char>),
}

impl View for CliError {
    type V = CliErrorView;

    open spec fn view(&self) -> CliErrorView {
        match self {
            CliError::Unparsable => CliErrorView::Unparsable,
            CliError::MissingValue(s) => CliErrorView::MissingValue(s@),
            CliError::InvalidFreq(s) => CliErrorView::InvalidFreq(s@),
        }
    }
}

/// The start of a word that describes a virtio MMIO device.
pub open spec fn mmio_prefix() -> Seq<char> {
    "virtio_mmio.device="@
}

/// Whether `w` describes a virtio MMIO device.
pub open spec fn is_mmio_word(w: Seq<char>) -> bool {
    w.len() >= mmio_prefix().len() && w.take(mmio_prefix().len() as int) == mmio_prefix()
}

/// The position of the first `=` in `s`, or the length of `s` where there is none.
pub open spec fn eq_pos(s: Seq<char>) -> int
    decreases s.len(),
{
    if s.len() == 0 || s[0] == '=' {
        0
    } else {
        1 + eq_pos(s.drop_first())
    }
}

/// The second of the parts that splitting `w` at each `=` gives: the text
/// between its first and its second `=`, or up to its end. Empty where `w`
/// holds no `=`.
pub open spec fn second_field(w: Seq<char>) -> Seq<char> {
    let a = eq_pos(w);
    if a < w.len() {
        let rest = w.skip(a + 1);
        rest.take(eq_pos(rest))
    } else {
        Seq::empty()
    }
}

/// The environment variable an option sets, for the options that set one.
pub open spec fn env_key(w: Seq<char>) -> Option<Seq<char>> {
    if w == "-ip"@ {
        Some("HERMIT_IP"@)
    } else if w == "-mask"@ {
        Some("HERMIT_MASK"@)
    } else if w == "-gateway"@ {
        Some("HERMIT_GATEWAY"@)
    } else if w == "-mount"@ {
        Some("UHYVE_MOUNT"@)
    } else {
        None
    }
}

/// Whether the option `w` is followed by a value.
pub open spec fn takes_value(w: Seq<char>) -> bool {
    w == "-freq"@ || env_key(w) is Some
}

/// The first reason why the words from position `i` on cannot be read:
/// an option without its value, or a frequency that is not a `u16`.
pub open spec fn first_problem(words: Seq<Seq<char>>, i: int) -> Option<CliErrorView>
    decreases words.len() - i,
{
    if i < 0 || i >= words.len() {
        None
    } else {
        let w = words[i];
        if is_mmio_word(w) {
            first_problem(words, i + 1)
        } else if takes_value(w) {
            if i + 1 >= words.len() {
                Some(CliErrorView::MissingValue(w))
            } else if w == "-freq"@ && spec_parse_unsigned(words[i + 1], 0xffff) is None {
                Some(CliErrorView::InvalidFreq(words[i + 1]))
            } else {
                first_problem(words, i + 2)
            }
        } else if w == "--"@ {
            None
        } else {
            first_problem(words, i + 1)
        }
    }
}

/// What the words from position `i` on set, on top of what `acc` holds.
pub open spec fn parse_from(words: Seq<Seq<char>>, i: int, acc: CliView) -> CliView
    decreases words.len() - i,
{
    if i < 0 || i >= words.len() {
        acc
    } else {
        let w = words[i];
        if is_mmio_word(w) {
            parse_from(
                words,
                i + 1,
                CliView {
                    image_path: acc.image_path,
                    freq: acc.freq,
                    env_vars: acc.env_vars,
                    args: acc.args,
                    mmio: acc.mmio.push(second_field(w)),
                },
            )
        } else if w == "-freq"@ && i + 1 < words.len() {
            parse_from(
                words,
                i + 2,
                CliView {
                    image_path: acc.image_path,
                    freq: Some(spec_parse_unsigned(words[i + 1], 0xffff)->0 as u16),
                    env_vars: acc.env_vars,
                    args: acc.args,
                    mmio: acc.mmio,
                },
            )
        } else if env_key(w) is Some && i + 1 < words.len() {
            parse_from(
                words,
                i + 2,
                CliView {
                    image_path: acc.image_path,
                    freq: acc.freq,
                    env_vars: acc.env_vars.insert(env_key(w)->0, words[i + 1]),
                    args: acc.args,
                    mmio: acc.mmio,
                },
            )
        } else if w == "--"@ {
            CliView {
                image_path: acc.image_path,
                freq: acc.freq,
                env_vars: acc.env_vars,
                args: acc.args + words.skip(i + 1),
                mmio: acc.mmio,
            }
        } else if acc.image_path is None {
            parse_from(
                words,
                i + 1,
                CliView {
                    image_path: Some(w),
                    freq: acc.freq,
                    env_vars: acc.env_vars,
                    args: acc.args,
                    mmio: acc.mmio,
                },
            )
        } else {
            parse_from(words, i + 1, acc)
        }
    }
}

/// Nothing set.
pub open spec fn empty_cli() -> CliView {
    CliView {
        image_path: None,
        freq: None,
        env_vars: Map::empty(),
        args: Seq::empty(),
        mmio: Seq::empty(),
    }
}

/// What the words set.
pub open spec fn parse_cli(words: Seq<Seq<char>>) -> CliView {
    parse_from(words, 0, empty_cli())
}

/// Reading on never takes back a device description already read: the
/// descriptions read before position `i` stay, in their order, at the
/// start of those read in the end.
pub proof fn lemma_parse_keeps_mmio(words: Seq<Seq<char>>, i: int, acc: CliView)
    ensures
        parse_from(words, i, acc).mmio.len() >= acc.mmio.len(),
        forall|k: int|
            0 <= k < acc.mmio.len() ==> #[trigger] parse_from(words, i, acc).mmio[k] == acc.mmio[k],
    decreases words.len() - i,
{
    if 0 <= i < words.len() {
        let w = words[i];
        if is_mmio_word(w) {
            let next = CliView { mmio: acc.mmio.push(second_field(w)), ..acc };
            lemma_parse_keeps_mmio(words, i + 1, next);
            assert forall|k: int| 0 <= k < acc.mmio.len() implies #[trigger] parse_from(
                words,
                i,
                acc,
            ).mmio[k] == acc.mmio[k] by {
                assert(next.mmio[k] == acc.mmio[k]);
            }
        } else if w == "-freq"@ && i + 1 < words.len() {
            let next = CliView {
                freq: Some(spec_parse_unsigned(words[i + 1], 0xffff)->0 as u16),
                ..acc
            };
            lemma_parse_keeps_mmio(words, i + 2, next);
        } else if env_key(w) is Some && i + 1 < words.len() {
            let next = CliView { env_vars: acc.env_vars.insert(env_key(w)->0, words[i + 1]), ..acc };
            lemma_parse_keeps_mmio(words, i + 2, next);
        } else if w == "--"@ {
        } else if acc.image_path is None {
            let next = CliView { image_path: Some(w), ..acc };
            lemma_parse_keeps_mmio(words, i + 1, next);
        } else {
            lemma_parse_keeps_mmio(words, i + 1, acc);
        }
    }
}

/// A run of `virtio_mmio.device=` words from position `i` to the end adds
/// one description per word, in their order, after those read before.
pub proof fn lemma_mmio_run(words: Seq<Seq<char>>, i: int, acc: CliView)
    requires
        0 <= i <= words.len(),
        forall|j: int| i <= j < words.len() ==> is_mmio_word(#[trigger] words[j]),
    ensures
        parse_from(words, i, acc).mmio == acc.mmio + words.subrange(i, words.len() as int).map_values(
            |w: Seq<char>| second_field(w),
        ),
    decreases words.len() - i,
{
    if i < words.len() {
        let next = CliView { mmio: acc.mmio.push(second_field(words[i])), ..acc };
        lemma_mmio_run(words, i + 1, next);
        assert(next.mmio + words.subrange(i + 1, words.len() as int).map_values(
            |w: Seq<char>| second_field(w),
        ) =~= acc.mmio + words.subrange(i, words.len() as int).map_values(
            |w: Seq<char>| second_field(w),
        ));
    } else {
        assert(acc.mmio + words.subrange(i, words.len() as int).map_values(
            |w: Seq<char>| second_field(w),
        ) =~= acc.mmio);
    }
}

/// A command line of `virtio_mmio.device=` words alone describes one device
/// per word, in their order: the `k`-th description is the `k`-th word's.
pub proof fn lemma_every_mmio_word_counts(words: Seq<Seq<char>>)
    requires
        forall|j: int| 0 <= j < words.len() ==> is_mmio_word(#[trigger] words[j]),
    ensures
        parse_cli(words).mmio.len() == words.len(),
        forall|k: int|
            0 <= k < words.len() ==> #[trigger] parse_cli(words).mmio[k] == second_field(words[k]),
{
    lemma_mmio_run(words, 0, empty_cli());
    assert(words.subrange(0, words.len() as int) =~= words);
}

proof fn lemma_eq_pos_skip(s: Seq<char>, i: int)
    requires
        0 <= i <= s.len(),
        forall|j: int| 0 <= j < i ==> s[j] != '=',
    ensures
        eq_pos(s) == i + eq_pos(s.skip(i)),
    decreases i,
{
    if i > 0 {
        let t = s.drop_first();
        assert forall|j: int| 0 <= j < i - 1 implies t[j] != '=' by {
            assert(t[j] == s[j + 1]);
        }
        lemma_eq_pos_skip(t, i - 1);
        assert(t.skip(i - 1) =~= s.skip(i));
    } else {
        assert(s.skip(0) =~= s);
    }
}

/// The position of the first `=` in `s` at or after `from`, or its length.
fn find_eq(s: &str, from: usize) -> (r: usize)
    requires
        from <= s@.len(),
    ensures
        from <= r <= s@.len(),
        r - from == eq_pos(s@.skip(from as int)),
{
    let n = s.unicode_len();
    let mut i = from;
    while i < n
        invariant
            n == s@.len(),
            from <= i <= n,
            forall|j: int| from <= j < i ==> s@[j] != '=',
        ensures
            from <= i <= n,
            forall|j: int| from <= j < i ==> s@[j] != '=',
            i == n || s@[i as int] == '=',
        decreases n - i,
    {
        if s.get_char(i) == '=' {
            break;
        }
        i = i + 1;
    }
    proof {
        let t = s@.skip(from as int);
        assert forall|j: int| 0 <= j < i - from implies t[j] != '=' by {
            assert(t[j] == s@[from + j]);
        }
        lemma_eq_pos_skip(t, i - from);
        assert(t.skip(i - from) =~= s@.skip(i as int));
    }
    i
}

/// The device description of a `virtio_mmio.device=` word.
fn mmio_value(w: &str) -> (r: String)
    ensures
        r@ == second_field(w@),
{
    let n = w.unicode_len();
    let a = find_eq(w, 0);
    assert(w@.skip(0) =~= w@);
    if a < n {
        let b = find_eq(w, a + 1);
        let v = w.substring_char(a + 1, b);
        assert(w@.skip(a + 1).take(b - (a + 1)) =~= w@.subrange(a + 1, b as int));
        v.to_owned()
    } else {
        String::new()
    }
}

/// Whether `w` is exactly `lit`.
fn word_is(w: &String, lit: &str) -> (r: bool)
    ensures
        r == (w@ == lit@),
{
    let l = lit.to_owned();
    *w == l
}

/// Whether `w` describes a virtio MMIO device.
fn starts_with_mmio_prefix(w: &String) -> (r: bool)
    ensures
        r == is_mmio_word(w@),
{
    let prefix = "virtio_mmio.device=";
    let plen = prefix.unicode_len();
    let s = w.as_str();
    if s.unicode_len() < plen {
        return false;
    }
    let head = s.substring_char(0, plen).to_owned();
    let p = prefix.to_owned();
    assert(w@.subrange(0, plen as int) =~= w@.take(plen as int));
    head == p
}

/// The environment variable an option sets.
fn env_key_of(w: &String) -> (r: Option<String>)
    ensures
        opt_view(r) == env_key(w@),
{
    if word_is(w, "-ip") {
        Some("HERMIT_IP".to_owned())
    } else if word_is(w, "-mask") {
        Some("HERMIT_MASK".to_owned())
    } else if word_is(w, "-gateway") {
        Some("HERMIT_GATEWAY".to_owned())
    } else if word_is(w, "-mount") {
        Some("UHYVE_MOUNT".to_owned())
    } else {
        None
    }
}

impl Cli {
    /// Reads the command line from its words: the device descriptions, the
    /// options with their values, the application's arguments after `--`
    /// and the image path. A word that is none of these is passed over.
    /// Fails on an option without a value and on a frequency that is not a
    /// `u16`.
    pub fn from_words(words: &Vec<String>) -> (r: Result<Cli, CliError>)
        ensures
            r is Ok <==> first_problem(string_views(words@), 0) is None,
            r matches Ok(c) ==> c@ == parse_cli(string_views(words@)),
            r matches Err(e) ==> first_problem(string_views(words@), 0) == Some(e@),
    {
        let ghost ws = string_views(words@);
        let mut image_path: Option<String> = None;
        let mut freq: Option<u16> = None;
        let mut env_vars = EnvVars::new();
        let mut args: Vec<String> = Vec::new();
        let mut mmio: Vec<String> = Vec::new();
        let n = words.len();
        let mut i: usize = 0;
        let mut done = false;
        assert(string_views(args@) =~= Seq::<Seq<char>>::empty());
        assert(env_vars_map(env_vars) =~= Map::<Seq<char>, Seq<char>>::empty());
        assert(string_views(mmio@) =~= Seq::<Seq<char>>::empty());
        while i < n && !done
            invariant
                n == words@.len(),
                ws == string_views(words@),
                ws.len() == n,
                i <= n,
                first_problem(ws, 0) == (if done {
                    None
                } else {
                    first_problem(ws, i as int)
                }),
                parse_cli(ws) == (if done {
                    CliView {
                        image_path: opt_view(image_path),
                        freq: freq,
                        env_vars: env_vars_map(env_vars),
                        args: string_views(args@),
                        mmio: string_views(mmio@),
                    }
                } else {
                    parse_from(
                        ws,
                        i as int,
                        CliView {
                            image_path: opt_view(image_path),
                            freq: freq,
                            env_vars: env_vars_map(env_vars),
                            args: string_views(args@),
                            mmio: string_views(mmio@),
                        },
                    )
                }),
            decreases n - i, if done {
                0int
            } else {
                1int
            },
        {
            let w = &words[i];
            assert(ws[i as int] == w@);
            if starts_with_mmio_prefix(w) {
                let v = mmio_value(w.as_str());
                let ghost before = mmio@;
                mmio.push(v);
                assert(string_views(mmio@) =~= string_views(before).push(v@));
                i = i + 1;
            } else if word_is(w, "-freq") {
                if i + 1 >= n {
                    return Err(CliError::MissingValue(w.clone()));
                }
                let value = &words[i + 1];
                assert(ws[i + 1] == value@);
                match parse_unsigned(value.as_str(), 0xffff) {
                    Some(f) => {
                        freq = Some(f as u16);
                    },
                    None => {
                        return Err(CliError::InvalidFreq(value.clone()));
                    },
                }
                i = i + 2;
            } else {
                match env_key_of(w) {
                    Some(key) => {
                        if i + 1 >= n {
                            return Err(CliError::MissingValue(w.clone()));
                        }
                        let value = words[i + 1].clone();
                        assert(ws[i + 1] == value@);
                        env_vars.insert(key, value);
                        i = i + 2;
                    },
                    None => {
                        if word_is(w, "--") {
                            let ghost before = args@;
                            let mut k = i + 1;
                            while k < n
                                invariant
                                    n == words@.len(),
                                    ws == string_views(words@),
                                    i < k <= n,
                                    string_views(args@) == string_views(before) + ws.subrange(
                                        i + 1,
                                        k as int,
                                    ),
                                decreases n - k,
                            {
                                let ghost prev = args@;
                                args.push(words[k].clone());
                                assert(string_views(args@) =~= string_views(prev).push(ws[k as int]));
                                assert(ws.subrange(i + 1, k + 1) =~= ws.subrange(i + 1, k as int).push(
                                    ws[k as int],
                                ));
                                k = k + 1;
                            }
                            assert(ws.subrange(i + 1, n as int) =~= ws.skip(i + 1));
                            done = true;
                        } else {
                            if image_path.is_none() {
                                image_path = Some(w.clone());
                            }
                            i = i + 1;
                        }
                    },
                }
            }
        }
        Ok(Cli { image_path, freq, env_vars, args, mmio })
    }

    /// CPU frequency in MHz if given through the `-freq` command-line parameter.
    pub fn freq(&self) -> (r: Option<u16>)
        ensures
            r == self@.freq,
    {
        self.freq
    }

    /// The value of the environment variable `key`, if the command line set it.
    pub fn var(&self, key: &str) -> (r: Option<&String>)
        ensures
            r is Some <==> self@.env_vars.contains_key(key@),
            r matches Some(v) ==> v@ == self@.env_vars[key@],
    {
        self.env_vars.get(key)
    }

    /// The environment variables the command line set, each once, as pairs
    /// of name and value.
    pub fn vars(&self) -> (r: Vec<(String, String)>)
        ensures
            forall|i: int|
                0 <= i < r@.len() ==> {
                    &&& self@.env_vars.contains_key((#[trigger] r@[i]).0@)
                    &&& self@.env_vars[r@[i].0@] == r@[i].1@
                },
            forall|i: int, j: int| 0 <= i < j < r@.len() ==> (#[trigger] r@[i]).0@ != (#[trigger] r@[j]).0@,
            forall|k: Seq<char>|
                #[trigger] self@.env_vars.contains_key(k) ==> exists|i: int|
                    0 <= i < r@.len() && (#[trigger] r@[i]).0@ == k,
    {
        self.env_vars.pairs()
    }

    /// The command-line arguments passed in after `--`.
    pub fn args(&self) -> (r: &[String])
        ensures
            string_views(r@) == self@.args,
    {
        self.args.as_slice()
    }

    /// The configuration of all MMIO devices.
    pub fn mmio(&self) -> (r: &[String])
        ensures
            string_views(r@) == self@.mmio,
    {
        self.mmio.as_slice()
    }

    /// The path of the image, if the command line names one.
    pub fn image_path(&self) -> (r: Option<&String>)
        ensures
            opt_view(
                match r {
                    Some(s) => Some(*s),
                    None => None,
                },
            ) == self@.image_path,
    {
        self.image_path.as_ref()
    }
}

/// Reads the kernel's command line: splits it into words as a shell would,
/// then reads the words with [`Cli::from_words`]. Fails where a quote is not
/// closed and where the words cannot be read.
pub fn init(cmdline: &str) -> (r: Result<Cli, CliError>)
    ensures
        shell_split(cmdline@) is None ==> r matches Err(CliError::Unparsable),
        shell_split(cmdline@) matches Some(w) ==> {
            &&& r is Ok <==> first_problem(w, 0) is None
            &&& r matches Ok(c) ==> c@ == parse_cli(w)
            &&& r matches Err(e) ==> first_problem(w, 0) == Some(e@)
        },
{
    match split_words(cmdline) {
        None => Err(CliError::Unparsable),
        Some(words) => Cli::from_words(&words),
    }
}

} // verus!
