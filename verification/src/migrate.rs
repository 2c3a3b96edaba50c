//! Decisions of the one-shot import from a Django analytics database: when
//! the destination may be written, how the source path is quoted for
//! `ATTACH`, and which imported property is the self-tracking one.
use vstd::prelude::*;
use crate::ids::{parse_uuid, uuid_parse};
use crate::text::{chars_of, concat, owned, string_of, str_is};

verus! {

/// Why the import stops.
#[derive(PartialEq, Eq, Structural)]
pub enum MigrateError {
    /// The destination holds data and `--force` was not given.
    DestinationNotEmpty,
    /// The source has no properties.
    NothingToMigrate,
    /// A source property id is not a UUID.
    BadPropertyId,
}

/// Whether the destination must be wiped first: only when it holds
/// properties, events or bot events, and only with `--force`.
pub fn preflight(dest_props: i64, dest_events: i64, dest_bots: i64, force: bool) -> (r: Result<bool, MigrateError>)
    requires
        i64::MIN <= dest_props + dest_events <= i64::MAX,
        i64::MIN <= dest_props + dest_events + dest_bots <= i64::MAX,
    ensures
        dest_props + dest_events + dest_bots > 0 && !force ==> r == Err::<bool, MigrateError>(
            MigrateError::DestinationNotEmpty,
        ),
        dest_props + dest_events + dest_bots > 0 && force ==> r == Ok::<bool, MigrateError>(true),
        dest_props + dest_events + dest_bots <= 0 ==> r == Ok::<bool, MigrateError>(false),
{
    if dest_props + dest_events + dest_bots > 0 {
        if !force {
            Err(MigrateError::DestinationNotEmpty)
        } else {
            Ok(true)
        }
    } else {
        Ok(false)
    }
}

/// The source must hold at least one property.
pub fn check_source(source_props: usize) -> (r: Result<(), MigrateError>)
    ensures
        r is Ok <==> source_props > 0,
        r is Err ==> r == Err::<(), MigrateError>(MigrateError::NothingToMigrate),
{
    if source_props == 0 {
        Err(MigrateError::NothingToMigrate)
    } else {
        Ok(())
    }
}

/// SQLite string-literal quoting: each `'` doubled.
pub open spec fn quote_spec(s: Seq<char>) -> Seq<char>
    decreases s.len(),
{
    if s.len() == 0 {
        Seq::empty()
    } else {
        quote_spec(s.drop_last()) + if s.last() == '\'' {
            seq!['\'', '\'']
        } else {
            seq![s.last()]
        }
    }
}

/// `t.replace("''", "'")`: each doubled quote, read left to right, as one.
pub open spec fn unquote(t: Seq<char>) -> Seq<char>
    decreases t.len(),
{
    if t.len() == 0 {
        t
    } else if t.len() >= 2 && t[0] == '\'' && t[1] == '\'' {
        seq!['\''] + unquote(t.subrange(2, t.len() as int))
    } else {
        seq![t[0]] + unquote(t.drop_first())
    }
}

/// `t` can stand between the quotes of an SQLite string literal: every quote
/// in it comes as a doubled pair.
pub open spec fn literal_body(t: Seq<char>) -> bool
    decreases t.len(),
{
    if t.len() == 0 {
        true
    } else if t.len() >= 2 && t[0] == '\'' && t[1] == '\'' {
        literal_body(t.subrange(2, t.len() as int))
    } else {
        t[0] != '\'' && literal_body(t.drop_first())
    }
}

proof fn lemma_quote_concat(a: Seq<char>, b: Seq<char>)
    ensures
        quote_spec(a + b) == quote_spec(a) + quote_spec(b),
    decreases b.len(),
{
    if b.len() > 0 {
        assert((a + b).drop_last() =~= a + b.drop_last());
        assert((a + b).last() == b.last());
        lemma_quote_concat(a, b.drop_last());
        assert(quote_spec(a + b) =~= quote_spec(a) + quote_spec(b));
    } else {
        assert(a + b =~= a);
        assert(quote_spec(b) =~= Seq::<char>::empty());
        assert(quote_spec(a) + quote_spec(b) =~= quote_spec(a));
    }
}

/// A quoted path, put between single quotes, is one SQLite string literal,
/// and undoing the doubled quotes gives the path back.
pub proof fn lemma_quote_round_trip(s: Seq<char>)
    ensures
        literal_body(quote_spec(s)),
        unquote(quote_spec(s)) == s,
    decreases s.len(),
{
    if s.len() > 0 {
        let c = s[0];
        let rest = s.drop_first();
        assert(s =~= seq![c] + rest);
        lemma_quote_concat(seq![c], rest);
        lemma_quote_round_trip(rest);
        let head = quote_spec(seq![c]);
        assert(seq![c].drop_last() =~= Seq::<char>::empty());
        assert(seq![c].last() == c);
        assert(quote_spec(Seq::<char>::empty()) == Seq::<char>::empty());
        assert(head == quote_spec(Seq::<char>::empty()) + (if c == '\'' { seq!['\'', '\''] } else { seq![c] }));
        let q = quote_spec(s);
        if c == '\'' {
            assert(head =~= seq!['\'', '\'']);
            assert(q.subrange(2, q.len() as int) =~= quote_spec(rest));
        } else {
            assert(head =~= seq![c]);
            assert(q.drop_first() =~= quote_spec(rest));
        }
        assert(unquote(q) =~= s);
    }
}

/// Quotes a path for `ATTACH DATABASE '<path>' AS src`.
pub fn escape_path(p: &str) -> (r: String)
    ensures
        r@ == quote_spec(p@),
{
    let cs = chars_of(p);
    let mut out: Vec<char> = Vec::new();
    for i in 0..cs.len()
        invariant
            cs@ == p@,
            out@ == quote_spec(p@.take(i as int)),
    {
        assert(p@.take((i + 1) as int).drop_last() =~= p@.take(i as int));
        if cs[i] == '\'' {
            out.push('\'');
            out.push('\'');
        } else {
            out.push(cs[i]);
        }
        assert(out@ =~= quote_spec(p@.take((i + 1) as int)));
    }
    assert(p@.take(p@.len() as int) =~= p@);
    string_of(out.as_slice())
}

/// The 16-byte id of a source property, kept so that the snippets on
/// tracked sites go on working: its stored text read as a UUID.
pub fn source_property_id(id_text: &str) -> (r: Result<[u8; 16], MigrateError>)
    ensures
        match uuid_parse(id_text@) {
            Some(b) => r matches Ok(a) && a@ == b,
            None => r == Err::<[u8; 16], MigrateError>(MigrateError::BadPropertyId),
        },
{
    match parse_uuid(id_text) {
        Some(a) => Ok(a),
        None => Err(MigrateError::BadPropertyId),
    }
}

/// The custom cards of a source property: its stored JSON, or an empty list
/// when it stored none.
pub fn source_custom_cards(stored: Option<&str>) -> (r: String)
    ensures
        r@ == match stored {
            Some(s) => s@,
            None => "[]"@,
        },
{
    match stored {
        Some(s) => owned(s),
        None => owned("[]"),
    }
}

/// A source property is the self-tracking one when it is named `Proprium`
/// and protected.
pub open spec fn is_proprium(name: Seq<char>, is_protected: i64) -> bool {
    name == "Proprium"@ && is_protected != 0
}

/// The last source property that is the self-tracking one.
pub fn proprium_index(rows: &Vec<(String, i64)>) -> (r: Option<usize>)
    ensures
        r matches Some(i) ==> i < rows@.len() && is_proprium(rows@[i as int].0@, rows@[i as int].1) && forall|
            j: int,
        |
            i < j < rows@.len() ==> !is_proprium((#[trigger] rows@[j]).0@, rows@[j].1),
        r is None ==> forall|j: int| 0 <= j < rows@.len() ==> !is_proprium((#[trigger] rows@[j]).0@, rows@[j].1),
{
    let mut found: Option<usize> = None;
    for i in 0..rows.len()
        invariant
            found matches Some(k) ==> k < i && is_proprium(rows@[k as int].0@, rows@[k as int].1) && forall|
                j: int,
            |
                k < j < i ==> !is_proprium((#[trigger] rows@[j]).0@, rows@[j].1),
            found is None ==> forall|j: int| 0 <= j < i ==> !is_proprium((#[trigger] rows@[j]).0@, rows@[j].1),
    {
        if str_is(rows[i].0.as_str(), "Proprium") && rows[i].1 != 0 {
            found = Some(i);
        }
    }
    found
}

} // verus!
