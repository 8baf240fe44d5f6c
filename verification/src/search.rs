//! Searching: from a document and a pattern to the lines of output.

use crate::error::SearchError;
use crate::flatten::{
    document_records, extend_path, item_records, lemma_take_next, member_records, records,
    top_level_records,
};
use crate::json::{document_of, members_view, parse_document, render_scalar, Json, Member};
use crate::pattern::{highlighted, matches_in, pattern_compiles, pattern_matches, Matcher};
use vstd::prelude::*;
use vstd::seq_lib::lemma_flatten_concat;

verus! {

/// One line of output: the path as it is shown, what follows it, and a
/// newline.
pub open spec fn line(shown: Seq<char>, extra: Seq<char>) -> Seq<char> {
    shown + extra + seq!['\n']
}

/// What follows the path on the line of a leaf: ` = ` and the leaf's text.
pub open spec fn leaf_extra(text: Seq<char>) -> Seq<char> {
    seq![' ', '=', ' '] + text
}

/// The paths of a sequence of records, in order.
pub open spec fn paths(found: Seq<(Seq<char>, Seq<char>)>) -> Seq<Seq<char>> {
    Seq::new(found.len(), |i: int| found[i].0)
}

/// For each record, the line it contributes: its line where its path
/// matches the pattern, nothing where it does not. `shown` gives, for each
/// record, the form in which its path is shown.
pub open spec fn lines(
    pattern: Seq<char>,
    found: Seq<(Seq<char>, Seq<char>)>,
    shown: Seq<Seq<char>>,
) -> Seq<Seq<char>> {
    Seq::new(
        found.len(),
        |i: int|
            if pattern_matches(pattern, found[i].0) {
                line(shown[i], leaf_extra(found[i].1))
            } else {
                Seq::empty()
            },
    )
}

/// The output for a sequence of records: their lines, one after another.
pub open spec fn report(
    pattern: Seq<char>,
    found: Seq<(Seq<char>, Seq<char>)>,
    shown: Seq<Seq<char>>,
) -> Seq<char> {
    lines(pattern, found, shown).flatten()
}

/// The output for a sequence of records without highlighting: every path is
/// shown as it is.
pub open spec fn plain_report(pattern: Seq<char>, found: Seq<(Seq<char>, Seq<char>)>) -> Seq<
    char,
> {
    report(pattern, found, paths(found))
}

/// `after` is `before` followed by the output for `found`, each path shown
/// as `shown` gives it. Without highlighting every path is shown as it is;
/// with highlighting every path that matches is shown with its matches
/// emphasised.
pub open spec fn appended(
    pattern: Seq<char>,
    color_output: bool,
    found: Seq<(Seq<char>, Seq<char>)>,
    shown: Seq<Seq<char>>,
    before: Seq<char>,
    after: Seq<char>,
) -> bool {
    &&& shown.len() == found.len()
    &&& !color_output ==> shown == paths(found)
    &&& color_output ==> forall|i: int|
        0 <= i < found.len() && pattern_matches(pattern, found[i].0) ==> highlighted(
            matches_in(pattern, found[i].0),
            #[trigger] shown[i],
        )
    &&& after == before + report(pattern, found, shown)
}

/// `after` is `before` followed by an output for `found`: one line for each
/// record whose path matches, in order, and nothing else. Without
/// highlighting that output is `plain_report`; with highlighting each path
/// is shown with its matches emphasised.
pub open spec fn renders(
    pattern: Seq<char>,
    color_output: bool,
    found: Seq<(Seq<char>, Seq<char>)>,
    before: Seq<char>,
    after: Seq<char>,
) -> bool {
    exists|shown: Seq<Seq<char>>|
        #[trigger] appended(pattern, color_output, found, shown, before, after)
}

/// The output for two runs of records is the output for the first followed
/// by the output for the second.
pub proof fn lemma_report_concat(
    pattern: Seq<char>,
    first: Seq<(Seq<char>, Seq<char>)>,
    first_shown: Seq<Seq<char>>,
    second: Seq<(Seq<char>, Seq<char>)>,
    second_shown: Seq<Seq<char>>,
)
    requires
        first_shown.len() == first.len(),
        second_shown.len() == second.len(),
    ensures
        report(pattern, first + second, first_shown + second_shown) == report(
            pattern,
            first,
            first_shown,
        ) + report(pattern, second, second_shown),
        paths(first + second) == paths(first) + paths(second),
{
    assert(lines(pattern, first + second, first_shown + second_shown) =~= lines(
        pattern,
        first,
        first_shown,
    ) + lines(pattern, second, second_shown));
    lemma_flatten_concat(
        lines(pattern, first, first_shown),
        lines(pattern, second, second_shown),
    );
    assert(paths(first + second) =~= paths(first) + paths(second));
}

/// The output for one record: its line where its path matches, nothing
/// where it does not.
pub proof fn lemma_report_one(pattern: Seq<char>, record: (Seq<char>, Seq<char>), shown: Seq<char>)
    ensures
        report(pattern, seq![record], seq![shown]) == if pattern_matches(pattern, record.0) {
            line(shown, leaf_extra(record.1))
        } else {
            Seq::empty()
        },
        paths(seq![record]) == seq![record.0],
{
    let all = lines(pattern, seq![record], seq![shown]);
    all.lemma_flatten_one_element();
    assert(all.flatten() == all.first());
    assert(paths(seq![record]) =~= seq![record.0]);
}

/// No records give no output.
pub proof fn lemma_report_empty(pattern: Seq<char>)
    ensures
        report(pattern, Seq::empty(), Seq::empty()) == Seq::<char>::empty(),
        paths(Seq::empty()) == Seq::<Seq<char>>::empty(),
{
    assert(lines(pattern, Seq::empty(), Seq::empty()) =~= Seq::<Seq<char>>::empty());
    assert(paths(Seq::empty()) =~= Seq::<Seq<char>>::empty());
}

/// Appends one line to `res`: the path as it is shown, what follows it, and
/// a newline.
pub fn push_line(shown: &str, extra: &str, res: &mut String)
    ensures
        final(res)@ == old(res)@ + line(shown@, extra@),
{
    proof {
        reveal_strlit("\n");
    }
    assert("\n"@ =~= seq!['\n']);
    res.append(shown);
    res.append(extra);
    res.append("\n");
    assert(res@ =~= old(res)@ + line(shown@, extra@));
}

/// Appends the line for `path` to `res` where the pattern matches `path`,
/// and leaves `res` as it is where it does not. With highlighting the path
/// is shown with every match emphasised; `extra` is never styled.
pub fn format_match(
    regex: &Matcher,
    color_output: bool,
    path: &str,
    extra: &str,
    res: &mut String,
)
    ensures
        !pattern_matches(regex@, path@) ==> final(res)@ == old(res)@,
        pattern_matches(regex@, path@) && !color_output ==> final(res)@ == old(res)@ + line(
            path@,
            extra@,
        ),
        pattern_matches(regex@, path@) && color_output ==> exists|shown: Seq<char>|
            {
                &&& highlighted(matches_in(regex@, path@), shown)
                &&& final(res)@ == old(res)@ + #[trigger] line(shown, extra@)
            },
{
    if !regex.is_match(path) {
        return ;
    }
    if color_output {
        let output = regex.highlight(path);
        push_line(output.as_str(), extra, res);
        assert(res@ == old(res)@ + line(output@, extra@));
    } else {
        push_line(path, extra, res);
    }
}

/// An output for one run of records followed by an output for a second run
/// is an output for the two runs together.
pub proof fn lemma_renders_concat(
    pattern: Seq<char>,
    color_output: bool,
    first: Seq<(Seq<char>, Seq<char>)>,
    second: Seq<(Seq<char>, Seq<char>)>,
    before: Seq<char>,
    middle: Seq<char>,
    after: Seq<char>,
)
    requires
        renders(pattern, color_output, first, before, middle),
        renders(pattern, color_output, second, middle, after),
    ensures
        renders(pattern, color_output, first + second, before, after),
{
    let first_shown = choose|shown: Seq<Seq<char>>|
        appended(pattern, color_output, first, shown, before, middle);
    let second_shown = choose|shown: Seq<Seq<char>>|
        appended(pattern, color_output, second, shown, middle, after);
    lemma_report_concat(pattern, first, first_shown, second, second_shown);
    assert(after =~= before + report(pattern, first + second, first_shown + second_shown));
    assert(appended(
        pattern,
        color_output,
        first + second,
        first_shown + second_shown,
        before,
        after,
    ));
}

/// Leaving the output as it is renders no records.
pub proof fn lemma_renders_nothing(pattern: Seq<char>, color_output: bool, before: Seq<char>)
    ensures
        renders(pattern, color_output, Seq::empty(), before, before),
{
    lemma_report_empty(pattern);
    assert(before =~= before + report(pattern, Seq::empty(), Seq::empty()));
    assert(appended(pattern, color_output, Seq::empty(), Seq::empty(), before, before));
}

/// What `format_match` does for the path and text of one record renders
/// that record.
proof fn lemma_renders_one(
    pattern: Seq<char>,
    color_output: bool,
    record: (Seq<char>, Seq<char>),
    extra: Seq<char>,
    before: Seq<char>,
    after: Seq<char>,
)
    requires
        extra == leaf_extra(record.1),
        !pattern_matches(pattern, record.0) ==> after == before,
        pattern_matches(pattern, record.0) && !color_output ==> after == before + line(
            record.0,
            extra,
        ),
        pattern_matches(pattern, record.0) && color_output ==> exists|shown: Seq<char>|
            {
                &&& highlighted(matches_in(pattern, record.0), shown)
                &&& after == before + #[trigger] line(shown, extra)
            },
    ensures
        renders(pattern, color_output, seq![record], before, after),
{
    let shown = if pattern_matches(pattern, record.0) && color_output {
        choose|shown: Seq<char>|
            {
                &&& highlighted(matches_in(pattern, record.0), shown)
                &&& after == before + #[trigger] line(shown, extra)
            }
    } else {
        record.0
    };
    lemma_report_one(pattern, record, shown);
    assert(after =~= before + report(pattern, seq![record], seq![shown]));
    assert(appended(pattern, color_output, seq![record], seq![shown], before, after));
}

/// Builds what follows the path on the line of a leaf.
pub fn leaf_suffix(text: &str) -> (extra: String)
    ensures
        extra@ == leaf_extra(text@),
{
    proof {
        reveal_strlit(" = ");
    }
    assert(" = "@ =~= seq![' ', '=', ' ']);
    let mut extra = " = ".to_owned();
    extra.append(text);
    extra
}

/// Appends to `res` one line for each record of `value`, found at `path`,
/// whose path matches the pattern, in traversal order.
pub fn visit_value(
    regex: &Matcher,
    color_output: bool,
    path: &str,
    value: &Json,
    res: &mut String,
)
    ensures
        renders(regex@, color_output, records(value@, path@), old(res)@, final(res)@),
        !color_output ==> final(res)@ == old(res)@ + plain_report(
            regex@,
            records(value@, path@),
        ),
    decreases value, 1nat,
{
    match value {
        Json::Array(_) => visit_array(regex, color_output, path, value, res),
        Json::Object(_) => visit_obj(regex, color_output, path, value, res),
        _ => {
            match render_scalar(value) {
                Some(text) => {
                    let extra = leaf_suffix(text.as_str());
                    format_match(regex, color_output, path, extra.as_str(), res);
                    proof {
                        lemma_renders_one(
                            regex@,
                            color_output,
                            (path@, text@),
                            extra@,
                            old(res)@,
                            res@,
                        );
                    }
                },
                None => {},
            }
        },
    }
}

/// Appends to `res` the lines for the array `value`, found at `path`: the
/// line of an empty array, or the lines of its elements, all under the
/// array's own path.
pub fn visit_array(
    regex: &Matcher,
    color_output: bool,
    path: &str,
    value: &Json,
    res: &mut String,
)
    requires
        value@ is Array,
    ensures
        renders(regex@, color_output, records(value@, path@), old(res)@, final(res)@),
        !color_output ==> final(res)@ == old(res)@ + plain_report(
            regex@,
            records(value@, path@),
        ),
    decreases value, 0nat,
{
    let ghost before = res@;
    match value {
        Json::Array(items) => {
            if items.len() == 0 {
                proof {
                    reveal_strlit(" = []");
                }
                assert(" = []"@ =~= leaf_extra(seq!['[', ']']));
                format_match(regex, color_output, path, " = []", res);
                proof {
                    lemma_renders_one(
                        regex@,
                        color_output,
                        (path@, seq!['[', ']']),
                        " = []"@,
                        before,
                        res@,
                    );
                }
            } else {
                let ghost parts = item_records(value@->Array_0, path@);
                let mut i: usize = 0;
                proof {
                    lemma_take_next(parts, 0);
                    lemma_renders_nothing(regex@, color_output, before);
                }
                while i < items.len()
                    invariant
                        i <= items.len(),
                        *value == Json::Array(*items),
                        parts == item_records(value@->Array_0, path@),
                        parts.len() == items.len(),
                        renders(
                            regex@,
                            color_output,
                            parts.take(i as int).flatten(),
                            before,
                            res@,
                        ),
                    decreases items.len() - i,
                {
                    let ghost middle = res@;
                    visit_value(regex, color_output, path, &items[i], res);
                    proof {
                        lemma_take_next(parts, i as int);
                        lemma_renders_concat(
                            regex@,
                            color_output,
                            parts.take(i as int).flatten(),
                            parts[i as int],
                            before,
                            middle,
                            res@,
                        );
                    }
                    i += 1;
                }
            }
        },
        _ => {},
    }
}

/// Appends to `res` the lines for the object `value`, found at `path`: the
/// line of an empty object, or the lines of its members, each under the
/// path extended by its key.
pub fn visit_obj(
    regex: &Matcher,
    color_output: bool,
    path: &str,
    value: &Json,
    res: &mut String,
)
    requires
        value@ is Object,
    ensures
        renders(regex@, color_output, records(value@, path@), old(res)@, final(res)@),
        !color_output ==> final(res)@ == old(res)@ + plain_report(
            regex@,
            records(value@, path@),
        ),
    decreases value, 0nat,
{
    let ghost before = res@;
    match value {
        Json::Object(members) => {
            if members.len() == 0 {
                proof {
                    reveal_strlit(" = {}");
                }
                assert(" = {}"@ =~= leaf_extra(seq!['{', '}']));
                format_match(regex, color_output, path, " = {}", res);
                proof {
                    lemma_renders_one(
                        regex@,
                        color_output,
                        (path@, seq!['{', '}']),
                        " = {}"@,
                        before,
                        res@,
                    );
                }
            } else {
                let ghost parts = member_records(value@->Object_0, path@);
                let mut i: usize = 0;
                proof {
                    lemma_take_next(parts, 0);
                    lemma_renders_nothing(regex@, color_output, before);
                }
                while i < members.len()
                    invariant
                        i <= members.len(),
                        *value == Json::Object(*members),
                        parts == member_records(value@->Object_0, path@),
                        parts.len() == members.len(),
                        renders(
                            regex@,
                            color_output,
                            parts.take(i as int).flatten(),
                            before,
                            res@,
                        ),
                    decreases members.len() - i,
                {
                    let ghost middle = res@;
                    let fullstring = extend_path(path, members[i].key.as_str());
                    visit_value(regex, color_output, fullstring.as_str(), &members[i].value, res);
                    proof {
                        lemma_take_next(parts, i as int);
                        lemma_renders_concat(
                            regex@,
                            color_output,
                            parts.take(i as int).flatten(),
                            parts[i as int],
                            before,
                            middle,
                            res@,
                        );
                    }
                    i += 1;
                }
            }
        },
        _ => {},
    }
}

/// Appends to `res` the lines for a document: those of its top-level
/// members, in order, each under its key.
pub fn search_members(
    regex: &Matcher,
    color_output: bool,
    members: &Vec<Member>,
    res: &mut String,
)
    ensures
        renders(
            regex@,
            color_output,
            document_records(members_view(members@)),
            old(res)@,
            final(res)@,
        ),
        !color_output ==> final(res)@ == old(res)@ + plain_report(
            regex@,
            document_records(members_view(members@)),
        ),
{
    let ghost before = res@;
    let ghost parts = top_level_records(members_view(members@));
    let mut i: usize = 0;
    proof {
        if members.len() > 0 {
            lemma_take_next(parts, 0);
        } else {
            assert(parts.take(0) =~= parts);
            assert(parts =~= Seq::empty());
        }
        lemma_renders_nothing(regex@, color_output, before);
    }
    while i < members.len()
        invariant
            i <= members.len(),
            parts == top_level_records(members_view(members@)),
            parts.len() == members.len(),
            renders(regex@, color_output, parts.take(i as int).flatten(), before, res@),
        decreases members.len() - i,
    {
        let ghost middle = res@;
        visit_value(regex, color_output, members[i].key.as_str(), &members[i].value, res);
        proof {
            lemma_take_next(parts, i as int);
            lemma_renders_concat(
                regex@,
                color_output,
                parts.take(i as int).flatten(),
                parts[i as int],
                before,
                middle,
                res@,
            );
        }
        i += 1;
    }
    proof {
        assert(parts.take(members.len() as int) =~= parts);
    }
}

/// The result of a search with its text taken as a sequence of characters.
pub open spec fn outcome_view(result: Result<String, SearchError>) -> Result<
    Seq<char>,
    SearchError,
> {
    match result {
        Ok(output) => Ok(output@),
        Err(e) => Err(e),
    }
}

/// `result` is a result of searching `content` for `regex`.
///
/// Content that is not one JSON object gives `InvalidJson`, whatever the
/// expression. An expression that does not compile gives `InvalidPattern`.
/// Otherwise the result is an output for the records of the document.
pub open spec fn search_outcome(
    regex: Seq<char>,
    content: Seq<char>,
    color_output: bool,
    result: Result<Seq<char>, SearchError>,
) -> bool {
    match document_of(content) {
        None => result == Err::<Seq<char>, SearchError>(SearchError::InvalidJson),
        Some(document) => if pattern_compiles(regex) {
            &&& result matches Ok(output)
            &&& renders(regex, color_output, document_records(document), Seq::empty(), output)
            &&& !color_output ==> output == plain_report(regex, document_records(document))
        } else {
            result == Err::<Seq<char>, SearchError>(SearchError::InvalidPattern)
        },
    }
}

/// Searches the JSON object that `content` holds for the paths that
/// `regex` matches, and returns the lines of output.
///
/// The content is read first: where it is not one JSON object the search
/// fails with `InvalidJson`, whatever the expression. Then the expression is
/// compiled: where `regex` is not a valid regular expression the search
/// fails with `InvalidPattern`. Otherwise the result is the output for the
/// records of the document.
pub fn search_string(regex: &str, content: &str, color_output: bool) -> (result: Result<
    String,
    SearchError,
>)
    ensures
        search_outcome(regex@, content@, color_output, outcome_view(result)),
{
    let members = match parse_document(content) {
        Ok(members) => members,
        Err(e) => {
            return Err(e);
        },
    };
    let matcher = match Matcher::compile(regex) {
        Ok(matcher) => matcher,
        Err(e) => {
            return Err(e);
        },
    };
    let mut res = String::new();
    search_members(&matcher, color_output, &members, &mut res);
    assert(res@ =~= Seq::empty() + res@);
    Ok(res)
}

/// The test that keeps the records whose path the pattern matches.
pub open spec fn path_matches(pattern: Seq<char>) -> spec_fn((Seq<char>, Seq<char>)) -> bool {
    |record: (Seq<char>, Seq<char>)| pattern_matches(pattern, record.0)
}

/// The records whose path the pattern matches, in their order.
pub open spec fn matching(pattern: Seq<char>, found: Seq<(Seq<char>, Seq<char>)>) -> Seq<
    (Seq<char>, Seq<char>),
> {
    found.filter(path_matches(pattern))
}

/// For each record, its line without highlighting.
pub open spec fn record_lines(found: Seq<(Seq<char>, Seq<char>)>) -> Seq<Seq<char>> {
    Seq::new(found.len(), |i: int| line(found[i].0, leaf_extra(found[i].1)))
}

/// Matching is a filter: without highlighting the output holds the line of
/// each record whose path the pattern matches, in the records' order, and
/// nothing else. The text of a leaf plays no part in the choice.
pub proof fn lemma_plain_report_filters(pattern: Seq<char>, found: Seq<(Seq<char>, Seq<char>)>)
    ensures
        plain_report(pattern, found) == record_lines(matching(pattern, found)).flatten(),
    decreases found.len(),
{
    reveal(Seq::filter);
    if found.len() == 0 {
        assert(lines(pattern, found, paths(found)) =~= Seq::<Seq<char>>::empty());
        assert(record_lines(matching(pattern, found)) =~= Seq::<Seq<char>>::empty());
    } else {
        let front = found.drop_last();
        let last = found.last();
        lemma_plain_report_filters(pattern, front);
        let last_line = if pattern_matches(pattern, last.0) {
            line(last.0, leaf_extra(last.1))
        } else {
            Seq::empty()
        };
        assert(lines(pattern, found, paths(found)) =~= lines(pattern, front, paths(front)).push(
            last_line,
        ));
        lines(pattern, front, paths(front)).lemma_flatten_push(last_line);
        let kept = matching(pattern, front);
        if pattern_matches(pattern, last.0) {
            assert(matching(pattern, found) == kept.push(last));
            assert(record_lines(kept.push(last)) =~= record_lines(kept).push(last_line));
            record_lines(kept).lemma_flatten_push(last_line);
        } else {
            assert(matching(pattern, found) == kept);
            assert(plain_report(pattern, front) + last_line =~= plain_report(pattern, front));
        }
    }
}

/// Without highlighting a search is a function of its inputs: two results
/// of searching the same content for the same expression are the same.
pub proof fn lemma_search_deterministic(
    regex: Seq<char>,
    content: Seq<char>,
    first: Result<Seq<char>, SearchError>,
    second: Result<Seq<char>, SearchError>,
)
    requires
        search_outcome(regex, content, false, first),
        search_outcome(regex, content, false, second),
    ensures
        first == second,
{
}

} // verus!
