//! The status line: each block's latest text as a JSON object, kept in
//! configuration order, and the line that shows them all.
use vstd::prelude::*;
use indexmap::IndexMap;
use crate::blocks::{kind_name, Block};
use crate::error::error_message;
use crate::text::two_hex;


verus! {

#[verifier::external_type_specification]
#[verifier::external_body]
#[verifier::reject_recursive_types(K)]
#[verifier::reject_recursive_types(V)]
#[verifier::reject_recursive_types(S)]
pub struct ExIndexMap<K, V, S>(IndexMap<K, V, S>);

/// How a JSON string writes one character: `"` and `\` behind a backslash,
/// the short escapes for backspace, tab, line feed, form feed and carriage
/// return, the other control characters below U+0020 as `\u00xx` (lower-case
/// hexadecimal), and every other character as it is.
pub open spec fn json_escape(c: char) -> Seq<char> {
    let u = c as u32;
    if c == '"' {
        seq!['\\', '"']
    } else if c == '\\' {
        seq!['\\', '\\']
    } else if u == 0x08 {
        seq!['\\', 'b']
    } else if u == 0x09 {
        seq!['\\', 't']
    } else if u == 0x0a {
        seq!['\\', 'n']
    } else if u == 0x0c {
        seq!['\\', 'f']
    } else if u == 0x0d {
        seq!['\\', 'r']
    } else if u < 0x20 {
        seq!['\\', 'u', '0', '0'] + two_hex(u as nat)
    } else {
        seq![c]
    }
}

/// The characters of `s`, each written as a JSON string writes it.
pub open spec fn json_escaped(s: Seq<char>) -> Seq<char>
    decreases s.len(),
{
    if s.len() == 0 {
        Seq::empty()
    } else {
        json_escaped(s.drop_last()) + json_escape(s.last())
    }
}

/// The JSON string literal for the text `s`.
pub open spec fn json_string_of(s: Seq<char>) -> Seq<char> {
    seq!['"'] + json_escaped(s) + seq!['"']
}

/// The (key, value) pairs of an ordered map, in their order.
pub uninterp spec fn entries_of(m: IndexMap<String, String>) -> Seq<(Seq<char>, Seq<char>)>;

/// Relies on `serde_json::to_string` on a `str`: it writes into a `Vec`, which
/// never fails, a quote, each character escaped by serde_json's table, and a
/// quote.
#[verifier::external_body]
fn to_json_string(s: &str) -> (r: Option<String>)
    ensures
        r is Some,
        r.unwrap()@ == json_string_of(s@),
{
    serde_json::to_string(s).ok()
}

/// No two entries have the same key.
pub open spec fn unique_keys(es: Seq<(Seq<char>, Seq<char>)>) -> bool {
    forall|i: int, j: int| 0 <= i < es.len() && 0 <= j < es.len() && i != j ==> es[i].0 != es[j].0
}

/// Relies on `IndexMap::new`: a new map has no entries.
#[verifier::external_body]
fn map_new() -> (r: IndexMap<String, String>)
    ensures
        entries_of(r) == Seq::<(Seq<char>, Seq<char>)>::empty(),
{
    IndexMap::new()
}

/// Relies on `IndexMap::insert`: a key that is there keeps its place and
/// takes the new value; a new key goes last. Keys stay unique.
#[verifier::external_body]
fn map_insert(m: &mut IndexMap<String, String>, key: String, value: String)
    requires
        unique_keys(entries_of(*old(m))),
    ensures
        unique_keys(entries_of(*final(m))),
        forall|i: int| 0 <= i < entries_of(*old(m)).len() && entries_of(*old(m))[i].0 == key@
            ==> entries_of(*final(m)) == entries_of(*old(m)).update(i, (key@, value@)),
        (forall|i: int| 0 <= i < entries_of(*old(m)).len() ==> entries_of(*old(m))[i].0 != key@)
            ==> entries_of(*final(m)) == entries_of(*old(m)).push((key@, value@)),
{
    m.insert(key, value);
}

/// Relies on `IndexMap::values`: the values, in the map's order.
#[verifier::external_body]
fn map_values(m: &IndexMap<String, String>) -> (r: Vec<String>)
    ensures
        r@.len() == entries_of(*m).len(),
        forall|i: int| 0 <= i < r@.len() ==> (#[trigger] r@[i])@ == entries_of(*m)[i].1,
{
    m.values().cloned().collect()
}

/// The texts joined with commas between them.
pub open spec fn comma_joined(parts: Seq<Seq<char>>) -> Seq<char>
    decreases parts.len(),
{
    if parts.len() == 0 {
        Seq::empty()
    } else if parts.len() == 1 {
        parts[0]
    } else {
        comma_joined(parts.drop_last()) + seq![','] + parts.last()
    }
}

/// Relies on `itertools::Itertools::intersperse`: a comma between each two texts.
#[verifier::external_body]
fn join_with_commas(parts: &Vec<String>) -> (r: String)
    ensures
        r@ == comma_joined(parts@.map_values(|p: String| p@)),
{
    itertools::Itertools::intersperse(parts.iter().map(|p| p.as_str()), ",").collect()
}

/// A block's JSON object: its name, then its text and markup hint where it has them.
pub open spec fn block_json(name: Seq<char>, full_text: Option<Seq<char>>, markup: Option<Seq<char>>) -> Seq<char> {
    "{\"name\":"@ + json_string_of(name) + match full_text {
        Some(t) => ",\"full_text\":"@ + json_string_of(t),
        None => Seq::empty(),
    } + match markup {
        Some(m) => ",\"markup\":"@ + json_string_of(m),
        None => Seq::empty(),
    } + seq!['}']
}

/// Frames a block's JSON object from the JSON string literals of its name,
/// text and markup hint.
pub fn frame_block_json(name_json: &str, text_json: Option<&str>, markup_json: Option<&str>) -> (r: String)
    ensures
        r@ == "{\"name\":"@ + name_json@ + match text_json {
            Some(t) => ",\"full_text\":"@ + t@,
            None => Seq::empty(),
        } + match markup_json {
            Some(m) => ",\"markup\":"@ + m@,
            None => Seq::empty(),
        } + seq!['}'],
{
    let mut out = String::from_str("{\"name\":");
    out.append(name_json);
    let ghost mid = out@;
    match text_json {
        Some(t) => {
            out.append(",\"full_text\":");
            out.append(t);
        },
        None => {},
    }
    let ghost mid2 = out@;
    match markup_json {
        Some(m) => {
            out.append(",\"markup\":");
            out.append(m);
        },
        None => {},
    }
    proof {
        reveal_strlit("}");
    }
    out.append("}");
    proof {
        let tpart = match text_json {
            Some(t) => ",\"full_text\":"@ + t@,
            None => Seq::<char>::empty(),
        };
        let mpart = match markup_json {
            Some(m) => ",\"markup\":"@ + m@,
            None => Seq::<char>::empty(),
        };
        assert(mid2 =~= mid + tpart);
        assert(out@ =~= "{\"name\":"@ + name_json@ + tpart + mpart + seq!['}']);
    }
    out
}

/// Writes a block's JSON object: its name, its text if any, its markup hint if any.
pub fn into_serialized(name: &str, full_text: Option<&str>, markup: Option<&str>) -> (r: Result<String, crate::error::Error>)
    ensures
        r matches Ok(t) && t@ == block_json(name@, opt_view(full_text), opt_view(markup)),
{
    let name_json = match to_json_string(name) {
        Some(j) => j,
        None => return Err(crate::error::Error::Serialize),
    };
    let text_json = match full_text {
        Some(t) => match to_json_string(t) {
            Some(j) => Some(j),
            None => return Err(crate::error::Error::Serialize),
        },
        None => None,
    };
    let markup_json = match markup {
        Some(m) => match to_json_string(m) {
            Some(j) => Some(j),
            None => return Err(crate::error::Error::Serialize),
        },
        None => None,
    };
    let t = match &text_json {
        Some(j) => Some(j.as_str()),
        None => None,
    };
    let m = match &markup_json {
        Some(j) => Some(j.as_str()),
        None => None,
    };
    Ok(frame_block_json(name_json.as_str(), t, m))
}

/// What a block reports: its name, its text if any, its markup hint if any.
pub struct Serialized {
    pub name: &'static str,
    pub full_text: Option<String>,
    pub markup: Option<&'static str>,
}

impl Serialized {
    /// The report as a JSON object.
    pub fn to_json(&self) -> (r: Result<String, crate::error::Error>)
        ensures
            r matches Ok(t) && t@ == block_json(self.name@, match self.full_text {
                Some(t) => Some(t@),
                None => None,
            }, opt_view(self.markup)),
    {
        let t = match &self.full_text {
            Some(t) => Some(t.as_str()),
            None => None,
        };
        into_serialized(self.name, t, self.markup)
    }
}

/// One update of the status line: a block's name and its new JSON object.
pub struct BlockResult {
    pub block_name: String,
    pub text: String,
}

/// What a block shows for one tick: its text, or the error's message.
pub open spec fn shown_text(outcome: Result<String, crate::error::Error>) -> Seq<char> {
    match outcome {
        Ok(t) => t@,
        Err(e) => error_message(e),
    }
}

/// The view of an optional text.
pub open spec fn opt_view(o: Option<&str>) -> Option<Seq<char>> {
    match o {
        Some(s) => Some(s@),
        None => None,
    }
}

/// The update for a block's tick: its text, or the error's message, as the
/// block's JSON object.
pub fn to_block_result(name: &str, markup: Option<&str>, outcome: Result<String, crate::error::Error>) -> (r: Result<BlockResult, crate::error::Error>)
    ensures
        r matches Ok(br) && br.block_name@ == name@
            && br.text@ == block_json(name@, Some(shown_text(outcome)), opt_view(markup)),
{
    let full_text = match outcome {
        Ok(t) => t,
        Err(e) => e.message(),
    };
    let text = into_serialized(name, Some(full_text.as_str()), markup)?;
    Ok(BlockResult { block_name: String::from_str(name), text })
}

/// The text that stands for a block that has not shown anything yet.
pub open spec fn placeholder() -> Seq<char> {
    seq!['{', '}']
}

/// A value of the status line: the placeholder, or a block's JSON object.
pub open spec fn is_entry(v: Seq<char>) -> bool {
    v == placeholder() || exists|n: Seq<char>, t: Option<Seq<char>>, m: Option<Seq<char>>|
        v == #[trigger] block_json(n, t, m)
}

pub open spec fn keys(es: Seq<(Seq<char>, Seq<char>)>) -> Seq<Seq<char>> {
    es.map_values(|e: (Seq<char>, Seq<char>)| e.0)
}

pub open spec fn values(es: Seq<(Seq<char>, Seq<char>)>) -> Seq<Seq<char>> {
    es.map_values(|e: (Seq<char>, Seq<char>)| e.1)
}

/// The entries after setting `k` to `v`: in place where `k` is, else last.
pub open spec fn updated(es: Seq<(Seq<char>, Seq<char>)>, k: Seq<char>, v: Seq<char>) -> Seq<(Seq<char>, Seq<char>)> {
    if exists|i: int| 0 <= i < es.len() && es[i].0 == k {
        let i = choose|i: int| 0 <= i < es.len() && es[i].0 == k;
        es.update(i, (k, v))
    } else {
        es.push((k, v))
    }
}

/// The entries after a run of updates, the first one first.
pub open spec fn apply_all(es: Seq<(Seq<char>, Seq<char>)>, ups: Seq<(Seq<char>, Seq<char>)>) -> Seq<(Seq<char>, Seq<char>)>
    decreases ups.len(),
{
    if ups.len() == 0 {
        es
    } else {
        let last = ups.last();
        updated(apply_all(es, ups.drop_last()), last.0, last.1)
    }
}

/// The status line: all values, in order, in a JSON array.
pub open spec fn line_text(es: Seq<(Seq<char>, Seq<char>)>) -> Seq<char> {
    seq!['['] + comma_joined(values(es)) + seq![']']
}

/// Every value is the placeholder or a block's JSON object.
pub open spec fn all_entries(es: Seq<(Seq<char>, Seq<char>)>) -> bool {
    forall|i: int| 0 <= i < es.len() ==> is_entry(#[trigger] es[i].1)
}

/// Setting a key that is there keeps the keys, in order and unique, and
/// puts the new value in its place.
proof fn lemma_update_existing(es: Seq<(Seq<char>, Seq<char>)>, k: Seq<char>, v: Seq<char>, i: int)
    requires
        unique_keys(es),
        0 <= i < es.len(),
        es[i].0 == k,
    ensures
        updated(es, k, v) == es.update(i, (k, v)),
        keys(updated(es, k, v)) == keys(es),
        unique_keys(updated(es, k, v)),
{
    let j = choose|j: int| 0 <= j < es.len() && es[j].0 == k;
    assert(j == i);
    assert(keys(es.update(i, (k, v))) =~= keys(es));
    let u = es.update(i, (k, v));
    assert forall|a: int, b: int| 0 <= a < u.len() && 0 <= b < u.len() && a != b implies u[a].0 != u[b].0 by {
        assert(u[a].0 == es[a].0);
        assert(u[b].0 == es[b].0);
    }
}

/// The order of the blocks never changes: after any run of updates, each
/// for a block that is there, the keys are those of the start, in the same
/// order.
pub proof fn lemma_order_preserved(es: Seq<(Seq<char>, Seq<char>)>, ups: Seq<(Seq<char>, Seq<char>)>)
    requires
        unique_keys(es),
        forall|u: int| 0 <= u < ups.len() ==> keys(es).contains(#[trigger] ups[u].0),
    ensures
        keys(apply_all(es, ups)) == keys(es),
        unique_keys(apply_all(es, ups)),
    decreases ups.len(),
{
    if ups.len() > 0 {
        let init = ups.drop_last();
        assert forall|u: int| 0 <= u < init.len() implies keys(es).contains(#[trigger] init[u].0) by {
            assert(init[u] == ups[u]);
        }
        lemma_order_preserved(es, init);
        let cur = apply_all(es, init);
        let last = ups.last();
        assert(keys(es).contains(ups[ups.len() - 1].0));
        let i = choose|i: int| 0 <= i < keys(es).len() && keys(es)[i] == last.0;
        assert(keys(cur)[i] == last.0);
        lemma_update_existing(cur, last.0, last.1, i);
    }
}

/// Every line of the status line holds one value per configured block: after
/// any run of updates, each for a block that is there and each with a
/// block's JSON object, the line is a JSON array with as many values as
/// there were blocks at the start, each the placeholder or a block's object.
pub proof fn lemma_line_has_every_block(es: Seq<(Seq<char>, Seq<char>)>, ups: Seq<(Seq<char>, Seq<char>)>)
    requires
        unique_keys(es),
        all_entries(es),
        forall|u: int| 0 <= u < ups.len() ==> keys(es).contains(#[trigger] ups[u].0),
        forall|u: int| 0 <= u < ups.len() ==> is_entry(#[trigger] ups[u].1),
    ensures
        apply_all(es, ups).len() == es.len(),
        values(apply_all(es, ups)).len() == es.len(),
        all_entries(apply_all(es, ups)),
        line_text(apply_all(es, ups)) == seq!['['] + comma_joined(values(apply_all(es, ups))) + seq![']'],
    decreases ups.len(),
{
    lemma_order_preserved(es, ups);
    assert(keys(apply_all(es, ups)).len() == keys(es).len());
    if ups.len() > 0 {
        let init = ups.drop_last();
        assert forall|u: int| 0 <= u < init.len() implies keys(es).contains(#[trigger] init[u].0) by {
            assert(init[u] == ups[u]);
        }
        assert forall|u: int| 0 <= u < init.len() implies is_entry(#[trigger] init[u].1) by {
            assert(init[u] == ups[u]);
        }
        lemma_line_has_every_block(es, init);
        lemma_order_preserved(es, init);
        let cur = apply_all(es, init);
        let last = ups.last();
        assert(keys(es).contains(ups[ups.len() - 1].0));
        assert(is_entry(ups[ups.len() - 1].1));
        let i = choose|i: int| 0 <= i < keys(es).len() && keys(es)[i] == last.0;
        assert(keys(cur)[i] == last.0);
        lemma_update_existing(cur, last.0, last.1, i);
        let nxt = apply_all(es, ups);
        assert(nxt == cur.update(i, (last.0, last.1)));
        assert forall|j: int| 0 <= j < nxt.len() implies is_entry(#[trigger] nxt[j].1) by {
            if j != i {
                assert(nxt[j] == cur[j]);
            }
        }
    }
}

/// The latest JSON object of each configured block, in configuration order.
pub struct OutputMap {
    map: IndexMap<String, String>,
}

impl OutputMap {
    pub closed spec fn entries(&self) -> Seq<(Seq<char>, Seq<char>)> {
        entries_of(self.map)
    }

    pub open spec fn wf(&self) -> bool {
        unique_keys(self.entries()) && all_entries(self.entries())
    }

    /// Sets the object of the block that `res` names and returns the new
    /// status line.
    pub fn update(&mut self, res: BlockResult) -> (r: String)
        requires
            old(self).wf(),
            is_entry(res.text@),
        ensures
            final(self).wf(),
            final(self).entries() == updated(old(self).entries(), res.block_name@, res.text@),
            r@ == line_text(final(self).entries()),
    {
        let ghost es = self.entries();
        let ghost k = res.block_name@;
        let ghost v = res.text@;
        map_insert(&mut self.map, res.block_name, res.text);
        proof {
            if exists|i: int| 0 <= i < es.len() && es[i].0 == k {
                let i = choose|i: int| 0 <= i < es.len() && es[i].0 == k;
                lemma_update_existing(es, k, v, i);
                let n = self.entries();
                assert forall|j: int| 0 <= j < n.len() implies is_entry(#[trigger] n[j].1) by {
                    if j != i {
                        assert(n[j] == es[j]);
                    }
                }
            } else {
                let n = self.entries();
                assert forall|j: int| 0 <= j < n.len() implies is_entry(#[trigger] n[j].1) by {
                    if j < es.len() {
                        assert(n[j] == es[j]);
                    }
                }
            }
        }
        self.line()
    }

    /// The status line: every block's latest object, in configuration order,
    /// in a JSON array.
    pub fn line(&self) -> (r: String)
        ensures
            r@ == line_text(self.entries()),
    {
        let vals = map_values(&self.map);
        let joined = join_with_commas(&vals);
        proof {
            assert(vals@.map_values(|p: String| p@) =~= values(self.entries()));
            reveal_strlit("[");
            reveal_strlit("]");
        }
        let mut out = String::from_str("[");
        out.append(joined.as_str());
        out.append("]");
        assert(out@ =~= line_text(self.entries()));
        out
    }
}

/// The placeholder entry of each block, under the block's name, in
/// configuration order.
pub open spec fn initial_entries(blocks: Seq<Block>) -> Seq<(Seq<char>, Seq<char>)> {
    blocks.map_values(|b: Block| (kind_name(b.kind())@, placeholder()))
}

/// The output before any block has shown anything: each configured block's
/// name with the placeholder, in configuration order. No two blocks may be of
/// the same kind.
pub fn initialise_output_map(blocks: &[Block]) -> (r: OutputMap)
    requires
        forall|i: int, j: int| 0 <= i < blocks@.len() && 0 <= j < blocks@.len() && i != j
            ==> blocks@[i].kind() != blocks@[j].kind(),
    ensures
        r.wf(),
        r.entries() == initial_entries(blocks@),
{
    let mut map = map_new();
    let mut k: usize = 0;
    while k < blocks.len()
        invariant
            0 <= k <= blocks@.len(),
            forall|i: int, j: int| 0 <= i < blocks@.len() && 0 <= j < blocks@.len() && i != j
                ==> blocks@[i].kind() != blocks@[j].kind(),
            entries_of(map) == initial_entries(blocks@.subrange(0, k as int)),
            unique_keys(entries_of(map)),
        decreases blocks@.len() - k,
    {
        let name = blocks[k].get_name();
        let ghost es = entries_of(map);
        proof {
            assert forall|i: int| 0 <= i < es.len() implies es[i].0 != name@ by {
                assert(es[i].0 == kind_name(blocks@[i].kind())@);
                lemma_kind_name_injective(blocks@[i].kind(), blocks@[k as int].kind());
            }
        }
        let key = String::from_str(name);
        let placeholder_text = String::from_str("{}");
        proof {
            reveal_strlit("{}");
            assert(placeholder_text@ =~= placeholder());
        }
        map_insert(&mut map, key, placeholder_text);
        proof {
            assert(entries_of(map) == es.push((name@, placeholder())));
            assert(initial_entries(blocks@.subrange(0, k + 1)) =~= es.push((name@, placeholder())));
        }
        k = k + 1;
    }
    proof {
        assert(blocks@.subrange(0, k as int) =~= blocks@);
        let es = entries_of(map);
        assert forall|i: int| 0 <= i < es.len() implies is_entry(#[trigger] es[i].1) by {
            assert(es[i].1 == placeholder());
        }
    }
    OutputMap { map }
}

/// Different kinds have different names.
proof fn lemma_kind_name_injective(a: crate::blocks::BlockKind, b: crate::blocks::BlockKind)
    requires
        a != b,
    ensures
        kind_name(a)@ != kind_name(b)@,
{
    reveal_strlit("Battery");
    reveal_strlit("Brightness");
    reveal_strlit("Cpu");
    reveal_strlit("Memory");
    reveal_strlit("Network");
    reveal_strlit("Time");
    reveal_strlit("Volume");
    let (x, y) = (kind_name(a)@, kind_name(b)@);
    if x.len() == y.len() {
        assert(x[0] != y[0] || x[1] != y[1]);
    }
}

} // verus!
