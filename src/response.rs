use vstd::prelude::*;
use crate::error::ServiceError;
use crate::text::{append_char, append_str};

verus! {

/// One canned question and answer, as the content source holds it.
/// The identifier is the 128-bit value of the record's UUID.
#[derive(Debug, Clone, PartialEq, Eq)]
pub struct ResponseSimulator {
    pub qa_id: Option<u128>,
    pub pertanyaan: String,
    pub jawaban: String,
    pub referensi: String,
}

/// The display text of a record before escape sequences are turned into line breaks.
pub open spec fn rendered(q: Seq<char>, a: Seq<char>, refs: Seq<char>) -> Seq<char> {
    let body = "**Pertanyaan:**\n"@ + q + "\n\n**Jawaban:**\n"@ + a;
    if refs.len() == 0 {
        body
    } else {
        body + "\n\n**Referensi:**\n"@ + refs
    }
}

/// Every two-character sequence `\` `n`, read left to right, becomes a line break.
pub open spec fn unescape_newlines(s: Seq<char>) -> Seq<char>
    decreases s.len(),
{
    if s.len() == 0 {
        s
    } else if s.len() >= 2 && s[0] == '\\' && s[1] == 'n' {
        seq!['\n'] + unescape_newlines(s.skip(2))
    } else {
        seq![s[0]] + unescape_newlines(s.skip(1))
    }
}

pub open spec fn formatted(r: ResponseSimulator) -> Seq<char> {
    unescape_newlines(rendered(r.pertanyaan@, r.jawaban@, r.referensi@))
}

/// Turns each literal `\n` escape of `s` into a real line break.
pub fn unescape(s: &str) -> (r: String)
    ensures
        r@ == unescape_newlines(s@),
{
    let n = s.unicode_len();
    let mut out = String::new();
    let mut i: usize = 0;
    assert(s@.skip(0) =~= s@);
    assert(out@ + unescape_newlines(s@) =~= unescape_newlines(s@));
    while i < n
        invariant
            n == s@.len(),
            i <= n,
            out@ + unescape_newlines(s@.skip(i as int)) == unescape_newlines(s@),
        decreases n - i,
    {
        let c = s.get_char(i);
        let ghost rest = s@.skip(i as int);
        if c == '\\' && i + 1 < n && s.get_char(i + 1) == 'n' {
            append_char(&mut out, '\n');
            assert(rest.skip(2) =~= s@.skip(i + 2));
            i = i + 2;
        } else {
            append_char(&mut out, c);
            assert(rest.skip(1) =~= s@.skip(i + 1));
            i = i + 1;
        }
        assert(out@ + unescape_newlines(s@.skip(i as int)) =~= unescape_newlines(s@));
    }
    assert(s@.skip(n as int) =~= Seq::<char>::empty());
    assert(out@ + Seq::<char>::empty() =~= out@);
    out
}

/// Renders a record: its question and answer sections, and its references
/// section when it has references, separated by blank lines.
pub fn format_response_from_db(response: &ResponseSimulator) -> (r: String)
    ensures
        r@ == formatted(*response),
{
    let mut text = "**Pertanyaan:**\n".to_owned();
    append_str(&mut text, response.pertanyaan.as_str());
    append_str(&mut text, "\n\n**Jawaban:**\n");
    append_str(&mut text, response.jawaban.as_str());
    if response.referensi.as_str().unicode_len() > 0 {
        append_str(&mut text, "\n\n**Referensi:**\n");
        append_str(&mut text, response.referensi.as_str());
    }
    assert(text@ =~= rendered(response.pertanyaan@, response.jawaban@, response.referensi@));
    unescape(text.as_str())
}

/// Relies on rand's `Rng::gen_range` over `thread_rng`: an index below `n`
/// (the call panics on an empty range, which `n > 0` excludes).
#[verifier::external_body]
fn random_index(n: usize) -> (r: usize)
    requires
        n > 0,
    ensures
        r < n,
{
    rand::Rng::gen_range(&mut rand::thread_rng(), 0..n)
}

/// The candidate at a drawn position, or `EmptyResultSet` when there is none.
pub fn response_at(responses: &[ResponseSimulator], index: usize) -> (r: Result<&ResponseSimulator, ServiceError>)
    ensures
        index < responses@.len() ==> (r matches Ok(x) && *x == responses@[index as int]),
        index >= responses@.len() ==> r == Err::<&ResponseSimulator, ServiceError>(ServiceError::EmptyResultSet),
{
    if index < responses.len() {
        Ok(&responses[index])
    } else {
        Err(ServiceError::EmptyResultSet)
    }
}

/// Picks one candidate at random; an empty candidate set is refused.
pub fn select_random_response_from_db(responses: &[ResponseSimulator]) -> (r: Result<&ResponseSimulator, ServiceError>)
    ensures
        responses@.len() == 0 <==> r is Err,
        r is Err ==> r == Err::<&ResponseSimulator, ServiceError>(ServiceError::EmptyResultSet),
        r matches Ok(x) ==> exists|i: int| 0 <= i < responses@.len() && *x == responses@[i],
{
    if responses.len() == 0 {
        return Err(ServiceError::EmptyResultSet);
    }
    let i = random_index(responses.len());
    response_at(responses, i)
}

/// Whether a file name has the extension `md`: it ends in `.md` after a
/// non-empty stem.
pub open spec fn is_markdown_name(name: Seq<char>) -> bool {
    &&& name.len() > 3
    &&& name[name.len() - 3] == '.'
    &&& name[name.len() - 2] == 'm'
    &&& name[name.len() - 1] == 'd'
}

pub fn has_markdown_extension(name: &str) -> (r: bool)
    ensures
        r == is_markdown_name(name@),
{
    let n = name.unicode_len();
    n > 3 && name.get_char(n - 3) == '.' && name.get_char(n - 2) == 'm' && name.get_char(n - 1) == 'd'
}

/// The positions of the markdown names among `names`, in order.
pub fn markdown_positions(names: &[String]) -> (r: Vec<usize>)
    ensures
        forall|k: int| 0 <= k < r@.len() ==> #[trigger] r@[k] < names@.len() && is_markdown_name(names@[r@[k] as int]@),
        forall|i: int| 0 <= i < names@.len() && is_markdown_name(names@[i]@) ==> r@.contains(i as usize),
{
    let mut r: Vec<usize> = Vec::new();
    let mut i: usize = 0;
    while i < names.len()
        invariant
            i <= names@.len(),
            forall|k: int| 0 <= k < r@.len() ==> #[trigger] r@[k] < names@.len() && is_markdown_name(names@[r@[k] as int]@),
            forall|j: int| 0 <= j < i && is_markdown_name(names@[j]@) ==> r@.contains(j as usize),
        decreases names@.len() - i,
    {
        let ghost before = r@;
        if has_markdown_extension(names[i].as_str()) {
            r.push(i);
            assert(r@[r@.len() - 1] == i);
        }
        assert forall|j: int| 0 <= j < i + 1 && is_markdown_name(names@[j]@) implies r@.contains(j as usize) by {
            if j < i {
                let k = choose|k: int| 0 <= k < before.len() && before[k] == j as usize;
                assert(r@[k] == j as usize);
            } else {
                assert(r@[r@.len() - 1] == i);
            }
        }
        i = i + 1;
    }
    r
}

/// Picks one markdown file at random among `names` and returns its
/// position; a folder without markdown files is refused.
pub fn select_random_markdown(names: &[String]) -> (r: Result<usize, ServiceError>)
    ensures
        r matches Ok(i) ==> i < names@.len() && is_markdown_name(names@[i as int]@),
        r is Err <==> forall|i: int| 0 <= i < names@.len() ==> !is_markdown_name(#[trigger] names@[i]@),
        r is Err ==> r == Err::<usize, ServiceError>(ServiceError::EmptyResultSet),
{
    let found = markdown_positions(names);
    if found.len() == 0 {
        assert forall|i: int| 0 <= i < names@.len() implies !is_markdown_name(#[trigger] names@[i]@) by {
            if is_markdown_name(names@[i]@) {
                assert(found@.contains(i as usize));
            }
        }
        return Err(ServiceError::EmptyResultSet);
    }
    let k = random_index(found.len());
    assert(found@[k as int] < names@.len());
    Ok(found[k])
}

/// The text a database-backed request streams: a fetch failure passes
/// through unchanged, an empty candidate set is `EmptyResultSet`, and
/// otherwise one candidate, picked at random, is rendered.
pub fn respond_from_candidates(fetched: &Result<Vec<ResponseSimulator>, ServiceError>) -> (r: Result<String, ServiceError>)
    ensures
        fetched matches Err(e) ==> r == Err::<String, ServiceError>(*e),
        fetched matches Ok(v) && v@.len() == 0 ==> r == Err::<String, ServiceError>(ServiceError::EmptyResultSet),
        fetched matches Ok(v) && v@.len() > 0 ==> (r matches Ok(t)
            && exists|i: int| 0 <= i < fetched->Ok_0@.len() && t@ == formatted(#[trigger] fetched->Ok_0@[i])),
{
    match fetched {
        Err(e) => Err(*e),
        Ok(v) => {
            match select_random_response_from_db(v.as_slice()) {
                Err(e) => Err(e),
                Ok(x) => Ok(format_response_from_db(x)),
            }
        },
    }
}

} // verus!
