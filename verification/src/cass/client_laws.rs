//! What the client asks of its tool, and what it makes of the answers.

use crate::cass::client;
use crate::cass::client::{CassClient, SessionMatch};
use crate::error::ErrorView;
use crate::json::JsonView;
use crate::places;
use crate::storage::row;
use crate::storage::row::FromRow;
use crate::storage::statement::ValueView;
use crate::text;
use vstd::prelude::*;

verus! {

/// The words of each command, and behind them where the data are, where that is set.
pub proof fn commands_have_their_words(client: CassClient, a: Seq<char>, m: nat, n: nat)
    ensures
        ({
            let tail = match client.data_dir {
                Some(dir) => seq!["--data-dir"@, dir@],
                None => Seq::empty(),
            };
            &&& client::fresh_run(client, client::health_args()).args == Some(
                seq!["health"@, "--robot"@] + tail,
            )
            &&& client::fresh_run(client, client::search_args(a, n)).args == Some(
                seq!["search"@, a, "--robot"@, "--limit"@, text::decimal(n)] + tail,
            )
            &&& client::fresh_run(client, client::export_args(a)).args == Some(
                seq!["export"@, a, "--format"@, "json"@, "--include-tools"@] + tail,
            )
            &&& client::fresh_run(client, client::expand_args(a, n)).args == Some(
                seq!["expand"@, a, "--robot"@, "--context"@, text::decimal(n)] + tail,
            )
            &&& client::fresh_run(client, client::view_args(a, m, n)).args == Some(
                seq![
                    "view"@,
                    a,
                    "--robot"@,
                    "--start"@,
                    text::decimal(m),
                    "--end"@,
                    text::decimal(n),
                ] + tail,
            )
            &&& client::fresh_run(client, client::capabilities_args()).args == Some(
                seq!["capabilities"@, "--robot"@] + tail,
            )
            &&& client::fresh_run(client, client::health_args()).program == client.cass_bin@
            &&& client::fresh_run(client, client::health_args()).guarded == client.guarded
        }),
{
    let tail = match client.data_dir {
        Some(dir) => seq!["--data-dir"@, dir@],
        None => Seq::empty(),
    };
    words_come_before_the_tail(client, client::health_args(), tail);
    words_come_before_the_tail(client, client::search_args(a, n), tail);
    words_come_before_the_tail(client, client::export_args(a), tail);
    words_come_before_the_tail(client, client::expand_args(a, n), tail);
    words_come_before_the_tail(client, client::view_args(a, m, n), tail);
    words_come_before_the_tail(client, client::capabilities_args(), tail);
}

proof fn words_come_before_the_tail(
    client: CassClient,
    args: Seq<Seq<char>>,
    tail: Seq<Seq<char>>,
)
    requires
        tail == (match client.data_dir {
            Some(dir) => seq!["--data-dir"@, dir@],
            None => Seq::<Seq<char>>::empty(),
        }),
    ensures
        client::fresh_run(client, args).args == Some(args + tail),
{
    assert(client::fresh_run(client, args).args->Some_0 =~= args + tail);
}

/// Each byte is two hexadecimal digits in small letters, first that of its sixteens and then that of
/// the rest.
pub proof fn byte_is_two_digits(bytes: Seq<u8>, i: int)
    requires
        0 <= i < bytes.len(),
    ensures
        client::hex(bytes).len() == 2 * bytes.len(),
        client::hex(bytes)[2 * i] == "0123456789abcdef"@[bytes[i] as int / 16],
        client::hex(bytes)[2 * i + 1] == "0123456789abcdef"@[bytes[i] as int % 16],
{
    reveal_strlit("0123456789abcdef");
    assert((2 * i) / 2 == i && (2 * i) % 2 == 0);
    assert((2 * i + 1) / 2 == i && (2 * i + 1) % 2 == 1);
    digit_is_in_the_row(bytes[i] as int / 16);
    digit_is_in_the_row(bytes[i] as int % 16);
}

proof fn digit_is_in_the_row(n: int)
    requires
        0 <= n < 16,
    ensures
        client::hex_digit(n) == "0123456789abcdef"@[n],
{
    reveal_strlit("0123456789abcdef");
    let row = "0123456789abcdef"@;
    assert(row[0] == '0' && row[1] == '1' && row[2] == '2' && row[3] == '3' && row[4] == '4'
        && row[5] == '5' && row[6] == '6' && row[7] == '7' && row[8] == '8' && row[9] == '9'
        && row[10] == 'a' && row[11] == 'b' && row[12] == 'c' && row[13] == 'd' && row[14] == 'e'
        && row[15] == 'f');
}

/// A timestamp is a text, or a number as it is written; anything else is none.
pub proof fn timestamp_is_a_text_or_a_number(value: JsonView)
    ensures
        match value {
            JsonView::Text(said) => client::timestamp_text(value) == Some(said),
            JsonView::Number { unsigned, text } => client::timestamp_text(value) == Some(text),
            _ => client::timestamp_text(value) is None,
        },
{
}

/// A match keeps all that the tool said of it, its session id too, unless that is empty: then it is
/// the name of its file without the extension.
pub proof fn match_is_kept_but_for_an_empty_id(
    r: SessionMatch,
    m: SessionMatch,
    directory: Seq<char>,
    name: Seq<char>,
    extension: Seq<char>,
)
    requires
        client::is_normalized_of(r, m),
        m.session_id@.len() == 0 ==> {
            &&& m.path@ == directory + seq!['/'] + name + seq!['.'] + extension
            &&& name.len() > 0 && extension.len() > 0
            &&& client::lacks(name, '/') && client::lacks(extension, '/')
            &&& client::lacks(extension, '.')
            &&& client::is_plain_path(m.path@)
        },
    ensures
        r.session_id@ == (if m.session_id@.len() == 0 {
            name
        } else {
            m.session_id@
        }),
        r.path@ == m.path@,
        r.score == m.score,
        r.snippet == m.snippet,
        r.content_hash == m.content_hash,
        r.project == m.project,
        r.timestamp == m.timestamp,
{
    if m.session_id@.len() == 0 {
        client::id_is_the_file_stem(directory, name, extension, r.session_id@);
    }
}

/// A file without an extension is its own id, and so is one whose name begins with its only dot.
pub proof fn bare_file_name_is_the_id(directory: Seq<char>, name: Seq<char>, id: Seq<char>)
    requires
        name.len() > 0,
        client::lacks(name, '/'),
        client::lacks(name.skip(1), '.'),
        name != "."@,
        client::is_plain_path(directory + seq!['/'] + name),
        client::is_session_id(directory + seq!['/'] + name, id),
    ensures
        id == name,
{
    reveal_strlit(".");
    reveal_strlit("..");
    let path = directory + seq!['/'] + name;
    last_slash_is_in_front(directory, name);
    assert(path.skip(directory.len() as int + 1) =~= name);
    assert(client::last_piece(path) == name);
    if name == ".."@ {
        assert(name.skip(1)[0] == '.');
    }
    last_dot_is_in_front(name);
}

proof fn last_slash_is_in_front(directory: Seq<char>, name: Seq<char>)
    requires
        client::lacks(name, '/'),
    ensures
        client::last_index(directory + seq!['/'] + name, '/') == directory.len(),
    decreases name.len(),
{
    let path = directory + seq!['/'] + name;
    if name.len() > 0 {
        let shorter = name.drop_last();
        assert forall|i: int| 0 <= i < shorter.len() implies #[trigger] shorter[i] != '/' by {
            assert(shorter[i] == name[i]);
        }
        last_slash_is_in_front(directory, shorter);
        assert(path.drop_last() =~= directory + seq!['/'] + shorter);
        assert(path.last() == name.last());
        assert(name[name.len() - 1] != '/');
    } else {
        assert(path.last() == '/');
    }
}

proof fn last_dot_is_in_front(name: Seq<char>)
    requires
        name.len() > 0,
        client::lacks(name.skip(1), '.'),
    ensures
        client::last_index(name, '.') <= 0,
    decreases name.len(),
{
    if name.len() > 1 {
        let shorter = name.drop_last();
        assert forall|i: int| 0 <= i < shorter.skip(1).len() implies #[trigger] shorter.skip(
            1,
        )[i] != '.' by {
            assert(shorter.skip(1)[i] == name.skip(1)[i]);
        }
        last_dot_is_in_front(shorter);
        assert(name.last() == name.skip(1)[name.len() - 2]);
    } else {
        assert(client::last_index(name.drop_last(), '.') == -1);
    }
}

/// A slash at the end of a path changes nothing of the file that it names.
pub proof fn slash_at_the_end_does_not_matter(path: Seq<char>)
    ensures
        client::plain_stem(path + seq!['/']) == client::plain_stem(path),
{
    reveal_strlit(".");
    let longer = path + seq!['/'];
    assert(longer.last() == '/');
    assert(client::last_index(longer, '/') == path.len());
    assert(longer.skip(path.len() as int + 1).len() == 0);
    assert(longer.take(path.len() as int) =~= path);
}

/// Which of the sessions are news: the fingerprint that is known of it is not the one that it carries.
/// One that carries none carries the empty one.
pub open spec fn changed(looked_up: Seq<(SessionMatch, Option<String>)>) -> spec_fn(int) -> bool {
    |i: int|
        {
            let hash = match looked_up[i].0.content_hash {
                Some(hash) => hash@,
                None => Seq::empty(),
            };
            match looked_up[i].1 {
                Some(known) => known@ != hash,
                None => true,
            }
        }
}

/// A scan with fingerprints gives the sessions that are news, in order and each once.
pub proof fn scan_gives_the_changed_in_order(looked_up: Seq<(SessionMatch, Option<String>)>)
    ensures
        exists|at: Seq<int>|
            {
                let kept = client::scanned(true, looked_up);
                &&& #[trigger] places::are_places(at, looked_up.len() as int, changed(looked_up))
                &&& kept.len() == at.len()
                &&& forall|k: int| 0 <= k < at.len() ==> kept[k] == looked_up[#[trigger] at[k]].0
            },
        client::scanned(false, looked_up).len() == looked_up.len(),
        forall|i: int|
            0 <= i < looked_up.len() ==> #[trigger] client::scanned(false, looked_up)[i]
                == looked_up[i].0,
{
    let at = news_go_by_sessions(looked_up, looked_up.len());
    assert(places::are_places(at, looked_up.len() as int, changed(looked_up)));
}

proof fn news_go_by_sessions(looked_up: Seq<(SessionMatch, Option<String>)>, n: nat) -> (at: Seq<
    int,
>)
    requires
        n <= looked_up.len(),
    ensures
        places::are_places(at, n as int, changed(looked_up)),
        client::news(looked_up, n).len() == at.len(),
        forall|k: int|
            0 <= k < at.len() ==> client::news(looked_up, n)[k] == looked_up[#[trigger] at[k]].0,
    decreases n,
{
    reveal_strlit("");
    if n == 0 {
        Seq::empty()
    } else {
        let i = n - 1;
        let before = news_go_by_sessions(looked_up, i as nat);
        let (m, known) = looked_up[i];
        places::one_more_place(before, i, changed(looked_up));
        assert(m.content_hash is None ==> client::carried_hash(m) =~= Seq::<char>::empty());
        assert(changed(looked_up)(i) == client::is_news(
            text::opt_text(known),
            client::carried_hash(m),
        ));
        if changed(looked_up)(i) {
            before.push(i)
        } else {
            before
        }
    }
}

/// A session is news where no fingerprint is found, or another than its own. A row that holds no text
/// is an error.
pub proof fn fingerprint_is_judged_by_its_text(held: Seq<ValueView>, content_hash: Seq<char>)
    ensures
        client::row_says_news(None, content_hash) == Ok::<bool, ErrorView>(true),
        held.len() > 0 && held[0] is Text ==> client::row_says_news(Some(held), content_hash)
            == Ok::<bool, ErrorView>(held[0]->Text_0 != content_hash),
        held.len() == 0 || !(held[0] is Text) ==> client::row_says_news(Some(held), content_hash)
            is Err,
{
    let kinds = String::columns();
    assert(row::column_problem(held, 0, kinds[0]) is None <==> held.len() > 0 && held[0] is Text);
    assert(row::fits(held, kinds) <==> held.len() > 0 && held[0] is Text);
}

/// The count of fingerprints is the number that the row holds. A row that holds no integer is an
/// error.
pub proof fn count_is_the_number_in_the_row(held: Seq<ValueView>)
    ensures
        held.len() > 0 && held[0] is Integer && 0 <= held[0]->Integer_0 <= usize::MAX ==> (
        client::row_says_count(held) matches Ok(n) && n == held[0]->Integer_0),
        held.len() > 0 && held[0] is Integer ==> client::row_says_count(held) is Ok,
        held.len() == 0 || !(held[0] is Integer) ==> client::row_says_count(held) is Err,
{
    let kinds = i64::columns();
    assert(row::column_problem(held, 0, kinds[0]) is None <==> held.len() > 0 && held[0]
        is Integer);
    assert(row::fits(held, kinds) <==> held.len() > 0 && held[0] is Integer);
}

/// Before any call nothing is remembered.
pub proof fn nothing_is_remembered_at_first(session: Seq<char>)
    ensures
        client::remembered(Seq::empty(), session) is None,
        client::fingerprint_row(Seq::empty(), session) is None,
{
}

/// The name of a file without its extension is what stands before its last dot, and the whole name
/// where there is none or it stands in front.
pub proof fn stem_stands_before_the_last_dot(name: Seq<char>, extension: Seq<char>)
    requires
        name.len() > 0,
        client::lacks(extension, '.'),
    ensures
        client::stem(name + seq!['.'] + extension) == name,
        client::stem(seq!['.'] + extension) == seq!['.'] + extension,
        client::stem(extension) == extension,
{
    let whole = name + seq!['.'] + extension;
    dot_is_in_front(name, extension);
    assert(whole.take(name.len() as int) =~= name);
    dot_is_in_front(Seq::empty(), extension);
    assert(Seq::<char>::empty() + seq!['.'] + extension =~= seq!['.'] + extension);
    no_dot(extension);
}

proof fn dot_is_in_front(name: Seq<char>, extension: Seq<char>)
    requires
        client::lacks(extension, '.'),
    ensures
        client::last_index(name + seq!['.'] + extension, '.') == name.len(),
    decreases extension.len(),
{
    let whole = name + seq!['.'] + extension;
    if extension.len() > 0 {
        let shorter = extension.drop_last();
        assert forall|i: int| 0 <= i < shorter.len() implies #[trigger] shorter[i] != '.' by {
            assert(shorter[i] == extension[i]);
        }
        dot_is_in_front(name, shorter);
        assert(whole.drop_last() =~= name + seq!['.'] + shorter);
        assert(whole.last() == extension.last());
        assert(extension[extension.len() - 1] != '.');
    } else {
        assert(whole.last() == '.');
    }
}

proof fn no_dot(text: Seq<char>)
    requires
        client::lacks(text, '.'),
    ensures
        client::last_index(text, '.') == -1,
    decreases text.len(),
{
    if text.len() > 0 {
        let shorter = text.drop_last();
        assert forall|i: int| 0 <= i < shorter.len() implies #[trigger] shorter[i] != '.' by {
            assert(shorter[i] == text[i]);
        }
        no_dot(shorter);
        assert(text[text.len() - 1] != '.');
    }
}

/// A path that names no file, such as one that ends in two dots, is its own id, where it is a plain
/// one.
pub proof fn path_without_a_file_is_its_own_id(directory: Seq<char>, id: Seq<char>)
    requires
        client::is_plain_path(directory + "/.."@),
        client::is_session_id(directory + "/.."@, id),
    ensures
        id == directory + "/.."@,
{
    reveal_strlit("/..");
    reveal_strlit("..");
    reveal_strlit(".");
    let dots = seq!['.', '.'];
    let path = directory + "/.."@;
    assert(path =~= directory + seq!['/'] + dots);
    last_slash_is_in_front(directory, dots);
    assert(path.skip(directory.len() as int + 1) =~= dots);
    assert(dots =~= ".."@);
}

/// A dot that stands for the directory itself at the end of a path changes nothing of the file that
/// the path names.
pub proof fn dot_at_the_end_does_not_matter(path: Seq<char>)
    ensures
        client::plain_stem(path + "/."@) == client::plain_stem(path),
{
    reveal_strlit("/.");
    reveal_strlit(".");
    let dot = seq!['.'];
    let longer = path + "/."@;
    assert(longer =~= path + seq!['/'] + dot);
    last_slash_is_in_front(path, dot);
    assert(longer.skip(path.len() as int + 1) =~= "."@);
    assert(longer.take(path.len() as int) =~= path);
}

} // verus!
