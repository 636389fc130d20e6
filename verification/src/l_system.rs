//! L-system grammars: parsing and string rewriting.
//!
//! A grammar is a name, a seed sentence (the generation-zero symbol
//! sequence), and productions
//! mapping one symbol to its replacement sequence. Text is parsed one
//! reserved character per symbol, with a single reserved arrow character
//! separating a rule's two sides. Derivation rewrites every symbol of a
//! sentence simultaneously, once per generation; a symbol with no production
//! rewrites to itself.

use vstd::prelude::*;

verus! {

/// One grammar symbol, read as a turtle command: draw a segment, step
/// without drawing, turn left, turn right, the two composite draw-turn-draw
/// symbols, and two abstract placeholder symbols that only ever drive
/// rewriting.
#[derive(Clone, Copy, Debug, PartialEq, Eq, Hash, Structural)]
pub enum Command {
    Draw,
    Step,
    Left,
    Right,
    DrawLeft,
    DrawRight,
    SubfigureA,
    SubfigureB,
}

/// The grammar text could not be parsed: an unrecognized character, a rule
/// without the arrow, or a rule with an empty left side.
#[derive(Clone, Copy, Debug, PartialEq, Eq, Structural)]
pub struct ParseError;

/// The character that separates a rule's two sides.
pub open spec fn rule_arrow() -> char {
    '\u{2192}'
}

/// The symbol that one reserved character denotes, or `None` for any other
/// character.
pub open spec fn spec_symbol(c: char) -> Option<Command> {
    if c == 'F' {
        Some(Command::Draw)
    } else if c == 'f' {
        Some(Command::Step)
    } else if c == '+' {
        Some(Command::Left)
    } else if c == '-' {
        Some(Command::Right)
    } else if c == 'L' {
        Some(Command::DrawLeft)
    } else if c == 'R' {
        Some(Command::DrawRight)
    } else if c == 'A' {
        Some(Command::SubfigureA)
    } else if c == 'B' {
        Some(Command::SubfigureB)
    } else {
        None
    }
}

/// A sentence parses exactly when every character denotes a symbol.
pub open spec fn spec_sentence_ok(s: Seq<char>) -> bool {
    forall|i: int| 0 <= i < s.len() ==> (#[trigger] spec_symbol(s[i])) is Some
}

/// The symbol sequence that a well-formed sentence denotes.
pub open spec fn spec_sentence(s: Seq<char>) -> Seq<Command> {
    Seq::new(s.len(), |i: int| spec_symbol(s[i]).unwrap())
}

/// The arrow of a rule stands at `j`: that character is the arrow and no
/// earlier one is.
pub open spec fn spec_arrow_at(s: Seq<char>, j: int) -> bool {
    &&& 0 <= j < s.len()
    &&& s[j] == rule_arrow()
    &&& forall|k: int| 0 <= k < j ==> s[k] != rule_arrow()
}

/// The position of a rule's arrow (meaningful only when one exists).
pub open spec fn arrow_pos(s: Seq<char>) -> int {
    choose|j: int| spec_arrow_at(s, j)
}

/// A rule parses exactly when it has an arrow, at least one symbol character
/// before it, and nothing but symbol characters on either side.
pub open spec fn spec_rule_ok(s: Seq<char>) -> bool {
    exists|j: int|
        {
            &&& #[trigger] spec_arrow_at(s, j)
            &&& j >= 1
            &&& spec_sentence_ok(s.take(j))
            &&& spec_sentence_ok(s.skip(j + 1))
        }
}

/// The symbol a well-formed rule is keyed by: the first symbol of its left
/// side. A longer left side parses, but only its first symbol is used.
pub open spec fn spec_rule_key(s: Seq<char>) -> Command {
    spec_symbol(s[0]).unwrap()
}

/// The replacement sequence of a well-formed rule: the symbols after the
/// arrow.
pub open spec fn spec_rule_body(s: Seq<char>) -> Seq<Command> {
    spec_sentence(s.skip(arrow_pos(s) + 1))
}

/// The production mapping that a list of well-formed rules builds, in order:
/// a later rule for the same symbol replaces an earlier one.
pub open spec fn spec_prods(rules: Seq<Seq<char>>) -> Map<Command, Seq<Command>>
    decreases rules.len(),
{
    if rules.len() == 0 {
        Map::empty()
    } else {
        spec_prods(rules.drop_last()).insert(
            spec_rule_key(rules.last()),
            spec_rule_body(rules.last()),
        )
    }
}

/// What one symbol rewrites to in one generation: its production, or itself
/// where the grammar has none (such a symbol is terminal).
pub open spec fn spec_expand(prods: Map<Command, Seq<Command>>, c: Command) -> Seq<Command> {
    if prods.contains_key(c) {
        prods[c]
    } else {
        seq![c]
    }
}

/// One generation of rewriting: every symbol of the sentence is replaced
/// simultaneously, in place.
pub open spec fn spec_step(prods: Map<Command, Seq<Command>>, s: Seq<Command>) -> Seq<Command>
    decreases s.len(),
{
    if s.len() == 0 {
        Seq::empty()
    } else {
        spec_step(prods, s.drop_last()) + spec_expand(prods, s.last())
    }
}

/// `n` generations of rewriting.
pub open spec fn spec_derive(prods: Map<Command, Seq<Command>>, s: Seq<Command>, n: nat) -> Seq<
    Command,
>
    decreases n,
{
    if n == 0 {
        s
    } else {
        spec_derive(prods, spec_step(prods, s), (n - 1) as nat)
    }
}

/// Identity law: deriving for zero generations returns the sentence
/// unchanged.
pub proof fn lemma_derive_zero(prods: Map<Command, Seq<Command>>, s: Seq<Command>)
    ensures
        spec_derive(prods, s, 0) == s,
{
}

/// Composability law: deriving for `a + b` generations equals deriving for
/// `a` generations and then for `b` more.
pub proof fn lemma_derive_add(prods: Map<Command, Seq<Command>>, s: Seq<Command>, a: nat, b: nat)
    ensures
        spec_derive(prods, s, a + b) == spec_derive(prods, spec_derive(prods, s, a), b),
    decreases a,
{
    if a > 0 {
        lemma_derive_add(prods, spec_step(prods, s), (a - 1) as nat, b);
    }
}

/// The ghost view of one stored production entry.
pub open spec fn prod_entry(p: (Command, Vec<Command>)) -> (Command, Seq<Command>) {
    (p.0, p.1@)
}

/// The ghost view of a stored production list.
pub open spec fn prod_list_of(l: Seq<(Command, Vec<Command>)>) -> Seq<(Command, Seq<Command>)> {
    Seq::new(l.len(), |i: int| prod_entry(l[i]))
}

/// The character sequences of a list of rule strings.
pub open spec fn rule_views(l: Seq<&str>) -> Seq<Seq<char>> {
    Seq::new(l.len(), |i: int| l[i]@)
}

/// The production mapping that an association list builds, in order: a
/// later entry for the same symbol replaces an earlier one.
pub open spec fn spec_prod_map(l: Seq<(Command, Seq<Command>)>) -> Map<Command, Seq<Command>>
    decreases l.len(),
{
    if l.len() == 0 {
        Map::empty()
    } else {
        spec_prod_map(l.drop_last()).insert(l.last().0, l.last().1)
    }
}

/// The mapping built from an association list takes, for each symbol, the
/// value of the last entry keyed by it.
proof fn lemma_prod_map_last(l: Seq<(Command, Seq<Command>)>, c: Command, j: int)
    requires
        0 <= j < l.len(),
        l[j].0 == c,
        forall|k: int| j < k < l.len() ==> l[k].0 != c,
    ensures
        spec_prod_map(l).contains_key(c),
        spec_prod_map(l)[c] == l[j].1,
    decreases l.len(),
{
    if j < l.len() - 1 {
        lemma_prod_map_last(l.drop_last(), c, j);
    }
}

/// A symbol no entry is keyed by is absent from the mapping.
proof fn lemma_prod_map_absent(l: Seq<(Command, Seq<Command>)>, c: Command)
    requires
        forall|k: int| 0 <= k < l.len() ==> l[k].0 != c,
    ensures
        !spec_prod_map(l).contains_key(c),
    decreases l.len(),
{
    if l.len() > 0 {
        lemma_prod_map_absent(l.drop_last(), c);
    }
}

/// The symbol that one reserved character denotes, or `None` for any other
/// character.
fn symbol_of(c: char) -> (r: Option<Command>)
    ensures
        r == spec_symbol(c),
{
    if c == 'F' {
        Some(Command::Draw)
    } else if c == 'f' {
        Some(Command::Step)
    } else if c == '+' {
        Some(Command::Left)
    } else if c == '-' {
        Some(Command::Right)
    } else if c == 'L' {
        Some(Command::DrawLeft)
    } else if c == 'R' {
        Some(Command::DrawRight)
    } else if c == 'A' {
        Some(Command::SubfigureA)
    } else if c == 'B' {
        Some(Command::SubfigureB)
    } else {
        None
    }
}

/// Parse a sentence: one symbol per character. Fails on the first character
/// that denotes no symbol.
pub fn parse_sentence(s: &str) -> (r: Result<Vec<Command>, ParseError>)
    ensures
        match r {
            Ok(v) => spec_sentence_ok(s@) && v@ == spec_sentence(s@),
            Err(_) => !spec_sentence_ok(s@),
        },
{
    let n = s.unicode_len();
    let mut out: Vec<Command> = Vec::new();
    let mut i: usize = 0;
    while i < n
        invariant
            i <= n,
            n == s@.len(),
            spec_sentence_ok(s@.take(i as int)),
            out@ == spec_sentence(s@.take(i as int)),
        decreases n - i,
    {
        let c = s.get_char(i);
        match symbol_of(c) {
            None => {
                return Err(ParseError);
            },
            Some(cmd) => {
                out.push(cmd);
            },
        }
        proof {
            assert(spec_sentence(s@.take(i + 1)) =~= spec_sentence(s@.take(i as int)).push(
                spec_symbol(s@[i as int]).unwrap(),
            ));
        }
        i += 1;
    }
    proof {
        assert(s@.take(n as int) =~= s@);
    }
    Ok(out)
}

/// The index of the first arrow character, or `None` when the string has
/// none.
fn find_arrow(s: &str) -> (r: Option<usize>)
    ensures
        match r {
            Some(j) => spec_arrow_at(s@, j as int),
            None => forall|k: int| 0 <= k < s@.len() ==> s@[k] != rule_arrow(),
        },
{
    let n = s.unicode_len();
    let mut j: usize = 0;
    while j < n
        invariant
            j <= n,
            n == s@.len(),
            forall|k: int| 0 <= k < j ==> s@[k] != rule_arrow(),
        decreases n - j,
    {
        let c = s.get_char(j);
        if c == '\u{2192}' {
            return Some(j);
        }
        j += 1;
    }
    None
}

/// The arrow position of a rule is unique: any two candidates are the first
/// arrow, so they coincide.
proof fn lemma_arrow_unique(s: Seq<char>, a: int, b: int)
    requires
        spec_arrow_at(s, a),
        spec_arrow_at(s, b),
    ensures
        a == b,
{
}

/// Parse one production rule: symbols, the arrow, symbols. Fails on a rule
/// without an arrow, with an empty left side, or with any unrecognized
/// character. The rule is keyed by the first symbol of its left side.
pub fn parse_rule(s: &str) -> (r: Result<(Command, Vec<Command>), ParseError>)
    ensures
        match r {
            Ok(p) => {
                &&& spec_rule_ok(s@)
                &&& p.0 == spec_rule_key(s@)
                &&& p.1@ == spec_rule_body(s@)
            },
            Err(_) => !spec_rule_ok(s@),
        },
{
    let n = s.unicode_len();
    let j = match find_arrow(s) {
        None => {
            proof {
                if spec_rule_ok(s@) {
                    let jj = choose|jj: int|
                        {
                            &&& #[trigger] spec_arrow_at(s@, jj)
                            &&& jj >= 1
                            &&& spec_sentence_ok(s@.take(jj))
                            &&& spec_sentence_ok(s@.skip(jj + 1))
                        };
                    assert(s@[jj] == rule_arrow());
                }
            }
            return Err(ParseError);
        },
        Some(j) => j,
    };
    let ghost witness = choose|jj: int|
        {
            &&& #[trigger] spec_arrow_at(s@, jj)
            &&& jj >= 1
            &&& spec_sentence_ok(s@.take(jj))
            &&& spec_sentence_ok(s@.skip(jj + 1))
        };
    proof {
        if spec_rule_ok(s@) {
            lemma_arrow_unique(s@, witness, j as int);
        }
    }
    if j == 0 {
        return Err(ParseError);
    }
    let lhs = s.substring_char(0, j);
    let rhs = s.substring_char(j + 1, n);
    proof {
        assert(lhs@ =~= s@.take(j as int));
        assert(rhs@ =~= s@.skip(j + 1));
    }
    let lhs_cmds = match parse_sentence(lhs) {
        Err(e) => {
            return Err(e);
        },
        Ok(v) => v,
    };
    let rhs_cmds = match parse_sentence(rhs) {
        Err(e) => {
            return Err(e);
        },
        Ok(v) => v,
    };
    proof {
        assert(spec_rule_ok(s@)) by {
            assert(spec_arrow_at(s@, j as int) && j >= 1 && spec_sentence_ok(s@.take(j as int))
                && spec_sentence_ok(s@.skip(j + 1)));
        }
        lemma_arrow_unique(s@, arrow_pos(s@), j as int);
        assert(spec_sentence(s@.take(j as int))[0] == spec_symbol(s@[0]).unwrap());
    }
    let key = lhs_cmds[0];
    Ok((key, rhs_cmds))
}

/// An L-system grammar: a name, an seed, and productions keyed by symbol.
///
/// Immutable after construction. A symbol with no production is terminal:
/// every generation rewrites it to itself.
#[derive(Debug)]
pub struct LSystem {
    name: String,
    seed: Vec<Command>,
    productions: Vec<(Command, Vec<Command>)>,
}

impl LSystem {
    /// The grammar's name.
    pub closed spec fn spec_name(&self) -> Seq<char> {
        self.name@
    }

    /// The grammar's seed: the generation-zero sentence.
    pub closed spec fn spec_seed(&self) -> Seq<Command> {
        self.seed@
    }

    /// The stored production entries, in the order the rules were given.
    pub closed spec fn prod_list(&self) -> Seq<(Command, Seq<Command>)> {
        prod_list_of(self.productions@)
    }

    /// The grammar's production mapping.
    pub open spec fn spec_productions(&self) -> Map<Command, Seq<Command>> {
        spec_prod_map(self.prod_list())
    }

    /// Parse a grammar from its name, its seed text, and one rule string
    /// per production.
    ///
    /// Fails exactly when the seed or any rule fails to parse; no grammar
    /// is returned then.
    pub fn new(name: &str, seed: &str, productions: Vec<&str>) -> (r: Result<
        LSystem,
        ParseError,
    >)
        ensures
            match r {
                Ok(ls) => {
                    &&& spec_sentence_ok(seed@)
                    &&& forall|i: int|
                        0 <= i < productions@.len() ==> spec_rule_ok((#[trigger] productions@[i])@)
                    &&& ls.spec_name() == name@
                    &&& ls.spec_seed() == spec_sentence(seed@)
                    &&& ls.spec_productions() == spec_prods(rule_views(productions@))
                },
                Err(_) => !spec_sentence_ok(seed@) || exists|i: int|
                    0 <= i < productions@.len() && !spec_rule_ok((#[trigger] productions@[i])@),
            },
    {
        let seed_cmds = match parse_sentence(seed) {
            Err(e) => {
                return Err(e);
            },
            Ok(v) => v,
        };
        let mut prods: Vec<(Command, Vec<Command>)> = Vec::new();
        let mut i: usize = 0;
        while i < productions.len()
            invariant
                i <= productions@.len(),
                forall|k: int| 0 <= k < i ==> spec_rule_ok((#[trigger] productions@[k])@),
                spec_prod_map(prod_list_of(prods@)) == spec_prods(
                    rule_views(productions@).take(i as int),
                ),
            decreases productions@.len() - i,
        {
            let rule = productions[i];
            match parse_rule(rule) {
                Err(e) => {
                    return Err(e);
                },
                Ok((key, body)) => {
                    let ghost pre = prods@;
                    let ghost key_g = key;
                    let ghost body_v = body@;
                    prods.push((key, body));
                    proof {
                        let lv = prod_list_of(prods@);
                        let rv = rule_views(productions@);
                        assert(prods@.last() == (key_g, prods@.last().1));
                        assert(lv.last() == (key_g, body_v));
                        assert(lv.drop_last() =~= prod_list_of(pre));
                        assert(rv.take(i + 1).drop_last() =~= rv.take(i as int));
                        assert(rv.take(i + 1).last() == productions@[i as int]@);
                        assert(key_g == spec_rule_key(rv.take(i + 1).last()));
                        assert(body_v == spec_rule_body(rv.take(i + 1).last()));
                        assert(spec_prod_map(lv) == spec_prod_map(lv.drop_last()).insert(
                            key_g,
                            body_v,
                        ));
                        assert(spec_prods(rv.take(i + 1)) == spec_prods(rv.take(i as int)).insert(
                            spec_rule_key(rv.take(i + 1).last()),
                            spec_rule_body(rv.take(i + 1).last()),
                        ));
                    }
                },
            }
            i += 1;
        }
        proof {
            let rv = rule_views(productions@);
            assert(rv.take(productions@.len() as int) =~= rv);
        }
        Ok(LSystem { name: name.to_owned(), seed: seed_cmds, productions: prods })
    }

    /// The grammar's name.
    pub fn name(&self) -> (r: &str)
        ensures
            r@ == self.spec_name(),
    {
        self.name.as_str()
    }

    /// The index of the last stored production entry for `c`, if any.
    fn lookup(&self, c: Command) -> (r: Option<usize>)
        ensures
            match r {
                Some(j) => {
                    &&& j < self.prod_list().len()
                    &&& self.prod_list()[j as int].0 == c
                    &&& forall|k: int|
                        j < k < self.prod_list().len() ==> (#[trigger] self.prod_list()[k]).0 != c
                },
                None => forall|k: int|
                    0 <= k < self.prod_list().len() ==> (#[trigger] self.prod_list()[k]).0 != c,
            },
    {
        let mut j = self.productions.len();
        while j > 0
            invariant
                j <= self.prod_list().len(),
                forall|k: int|
                    j <= k < self.prod_list().len() ==> (#[trigger] self.prod_list()[k]).0 != c,
            decreases j,
        {
            j -= 1;
            if self.productions[j].0 == c {
                return Some(j);
            }
        }
        None
    }

    /// Rewrite a sentence for one generation: replace every symbol with its
    /// production, or keep it where the grammar has none.
    fn step_once(&self, sentence: &Vec<Command>) -> (r: Vec<Command>)
        ensures
            r@ == spec_step(self.spec_productions(), sentence@),
    {
        let mut out: Vec<Command> = Vec::new();
        let mut i: usize = 0;
        while i < sentence.len()
            invariant
                i <= sentence@.len(),
                out@ == spec_step(self.spec_productions(), sentence@.take(i as int)),
            decreases sentence@.len() - i,
        {
            let c = sentence[i];
            proof {
                assert(sentence@.take(i + 1).drop_last() =~= sentence@.take(i as int));
                assert(sentence@.take(i + 1).last() == sentence@[i as int]);
            }
            match self.lookup(c) {
                Some(j) => {
                    proof {
                        lemma_prod_map_last(self.prod_list(), c, j as int);
                    }
                    let body = &self.productions[j].1;
                    let mut k: usize = 0;
                    while k < body.len()
                        invariant
                            k <= body@.len(),
                            body@ == self.prod_list()[j as int].1,
                            self.spec_productions().contains_key(c),
                            self.spec_productions()[c] == body@,
                            out@ == spec_step(self.spec_productions(), sentence@.take(i as int))
                                + body@.take(k as int),
                        decreases body@.len() - k,
                    {
                        out.push(body[k]);
                        k += 1;
                    }
                    proof {
                        assert(body@.take(body@.len() as int) =~= body@);
                    }
                },
                None => {
                    proof {
                        lemma_prod_map_absent(self.prod_list(), c);
                    }
                    out.push(c);
                    proof {
                        assert(out@ =~= spec_step(
                            self.spec_productions(),
                            sentence@.take(i as int),
                        ) + seq![c]);
                    }
                },
            }
            i += 1;
        }
        proof {
            assert(sentence@.take(sentence@.len() as int) =~= sentence@);
        }
        out
    }

    /// Rewrite a sentence for `n` generations, one simultaneous substitution
    /// pass per generation. Zero generations return the sentence unchanged.
    pub fn derive(&self, sentence: &Vec<Command>, n: u32) -> (r: Vec<Command>)
        ensures
            r@ == spec_derive(self.spec_productions(), sentence@, n as nat),
    {
        let mut cur: Vec<Command> = Vec::new();
        let mut i: usize = 0;
        while i < sentence.len()
            invariant
                i <= sentence@.len(),
                cur@ == sentence@.take(i as int),
            decreases sentence@.len() - i,
        {
            cur.push(sentence[i]);
            proof {
                assert(sentence@.take(i + 1) =~= sentence@.take(i as int).push(
                    sentence@[i as int],
                ));
            }
            i += 1;
        }
        proof {
            assert(sentence@.take(sentence@.len() as int) =~= sentence@);
        }
        let mut g: u32 = 0;
        while g < n
            invariant
                g <= n,
                cur@ == spec_derive(self.spec_productions(), sentence@, g as nat),
            decreases n - g,
        {
            let next = self.step_once(&cur);
            cur = next;
            proof {
                lemma_derive_add(self.spec_productions(), sentence@, g as nat, 1);
                let mid = spec_derive(self.spec_productions(), sentence@, g as nat);
                let stepped = spec_step(self.spec_productions(), mid);
                assert(spec_derive(self.spec_productions(), stepped, 0) == stepped);
                assert(spec_derive(self.spec_productions(), mid, 1) == spec_derive(
                    self.spec_productions(),
                    stepped,
                    0,
                ));
            }
            g += 1;
        }
        cur
    }

    /// The command sequence of generation `n`: the seed derived `n` times.
    pub fn commands(&self, n: u32) -> (r: Vec<Command>)
        ensures
            r@ == spec_derive(self.spec_productions(), self.spec_seed(), n as nat),
    {
        self.derive(&self.seed, n)
    }
}

} // verus!
