//! Promises on the trust on Linux.
use vstd::prelude::*;

use crate::certificates::pem_certificate;
use crate::error::TrustError;
use crate::guarantees::text::{
    all_separate, lemma_split_at, lemma_split_whole, none_separates, separates,
};
use crate::linux::{
    authority_name, begin_check, begin_request, below, ca_name, continue_check, continue_request,
    hex, hex_digit, linux_store, list_vouches, non_empty_pieces, nss_databases, nss_list_trusts,
    sha256, vouches, words, words_of, write_hex, CheckStage, CheckStep, LinuxStore, LinuxTrust,
    Outcome, Presence, RequestStage, RequestStep, Session, TrustAction, ARCH_ANCHORS,
    INSTALL_SCRIPT, NSS_DATABASE_FILE, SUSE_ANCHORS, UPDATE_CA_CERTIFICATES, UPDATE_CA_TRUST,
    UPDATE_CA_TRUST_SBIN,
};
use crate::preview::utf8_lossy;
use crate::text::{split, texts, Separator};
use crate::trust::Command;

verus! {

/// Whether a path is `path` below `directory`, with one slash between them where the directory does
/// not end with one.
pub open spec fn is_below(res: Seq<char>, directory: Seq<char>, path: Seq<char>) -> bool {
    if directory.len() > 0 && directory.last() != '/' {
        res == directory + seq!['/'] + path
    } else {
        res == directory + path
    }
}

/// A path is put below a directory with a slash between them.
pub proof fn paths_are_put_below(directory: &str, path: &str, res: String)
    requires
        call_ensures(below, (directory, path), res),
    ensures
        is_below(res@, directory@, path@),
{
}

/// The places that tell one distribution from another.
pub proof fn places_are_these()
    ensures
        UPDATE_CA_CERTIFICATES@ == "usr/sbin/update-ca-certificates"@,
        UPDATE_CA_TRUST@ == "usr/bin/update-ca-trust"@,
        UPDATE_CA_TRUST_SBIN@ == "usr/sbin/update-ca-trust"@,
        SUSE_ANCHORS@ == "etc/pki/trust/anchors"@,
        ARCH_ANCHORS@ == "etc/ca-certificates/trust-source/anchors"@,
        NSS_DATABASE_FILE@ == "cert9.db"@,
{
}

/// Debian, Alpine and openSUSE: where `update-ca-certificates` is there, it is the tool, whatever
/// else is there, and it takes no arguments. The authority goes into openSUSE's directory if that
/// is there, and into Debian's otherwise.
pub proof fn debian_and_suse_have_their_store(
    root: &str,
    presence: &Presence,
    res: Result<LinuxStore, TrustError>,
)
    requires
        call_ensures(linux_store, (root, presence), res),
        presence.update_ca_certificates,
    ensures
        res matches Ok(store) && {
            &&& is_below(store.update@, root@, "usr/sbin/update-ca-certificates"@)
            &&& store.args@.len() == 0
            &&& presence.suse_anchors ==> is_below(
                store.directory@,
                root@,
                "etc/pki/trust/anchors"@,
            )
            &&& !presence.suse_anchors ==> is_below(
                store.directory@,
                root@,
                "usr/local/share/ca-certificates"@,
            )
        },
{
    let store = res->Ok_0;
    assert(texts(store.args@).len() == store.args@.len());
}

/// Fedora and Arch: where `update-ca-trust` is there and `update-ca-certificates` is not, it is the
/// tool, in whichever of its two places it is, and it is told to extract. The authority goes into
/// Arch's directory if that is there, and into Fedora's otherwise; the place of the tool has no say
/// in that.
pub proof fn fedora_and_arch_have_their_store(
    root: &str,
    presence: &Presence,
    res: Result<LinuxStore, TrustError>,
)
    requires
        call_ensures(linux_store, (root, presence), res),
        !presence.update_ca_certificates,
        presence.update_ca_trust || presence.update_ca_trust_sbin,
    ensures
        res matches Ok(store) && {
            &&& presence.update_ca_trust ==> is_below(
                store.update@,
                root@,
                "usr/bin/update-ca-trust"@,
            )
            &&& !presence.update_ca_trust ==> is_below(
                store.update@,
                root@,
                "usr/sbin/update-ca-trust"@,
            )
            &&& store.args@.len() == 1
            &&& store.args@[0]@ == "extract"@
            &&& presence.arch_anchors ==> is_below(
                store.directory@,
                root@,
                "etc/ca-certificates/trust-source/anchors"@,
            )
            &&& !presence.arch_anchors ==> is_below(
                store.directory@,
                root@,
                "etc/pki/ca-trust/source/anchors"@,
            )
        },
{
    let store = res->Ok_0;
    assert(texts(store.args@).len() == store.args@.len());
    assert(texts(store.args@)[0] == store.args@[0]@);
}

/// Without a tool there is no store, and that is an error.
pub proof fn store_needs_a_tool(
    root: &str,
    presence: &Presence,
    res: Result<LinuxStore, TrustError>,
)
    requires
        call_ensures(linux_store, (root, presence), res),
    ensures
        res is Err == (!presence.update_ca_certificates && !presence.update_ca_trust
            && !presence.update_ca_trust_sbin),
        res matches Err(error) ==> error is MissingUpdateTool,
{
}

/// Two systems that differ only in where `update-ca-trust` is, or in the directory of the other
/// family, keep the authority in the same directory.
pub proof fn directory_does_not_depend_on_the_place_of_the_tool(
    root: &str,
    one: &Presence,
    other: &Presence,
    one_store: Result<LinuxStore, TrustError>,
    other_store: Result<LinuxStore, TrustError>,
)
    requires
        call_ensures(linux_store, (root, one), one_store),
        call_ensures(linux_store, (root, other), other_store),
        one.update_ca_certificates == other.update_ca_certificates,
        one_store is Ok,
        other_store is Ok,
        one.update_ca_certificates ==> one.suse_anchors == other.suse_anchors,
        !one.update_ca_certificates ==> one.arch_anchors == other.arch_anchors,
    ensures
        one_store->Ok_0.directory@ == other_store->Ok_0.directory@,
{
}

/// Two places below the home directory may hold a browser's database.
pub proof fn databases_are_looked_for(res: Vec<String>)
    requires
        call_ensures(nss_databases, (), res),
    ensures
        res@.len() == 2,
        res@[0]@ == ".pki/nssdb"@,
        res@[1]@ == ".local/share/pki/nssdb"@,
{
    assert(texts(res@).len() == res@.len());
    assert(texts(res@)[0] == res@[0]@);
    assert(texts(res@)[1] == res@[1]@);
}

/// The value of a hexadecimal digit in small letters; none for other characters.
pub open spec fn hex_value(c: char) -> Option<int> {
    if '0' <= c <= '9' {
        Some(c as int - 48)
    } else if 'a' <= c <= 'f' {
        Some(c as int - 87)
    } else {
        None
    }
}

/// Whether a text is bytes in hexadecimal digits, two for each byte.
pub open spec fn is_hex(text: Seq<char>, bytes: Seq<u8>) -> bool {
    &&& text.len() == 2 * bytes.len()
    &&& forall|i: int| 0 <= i < bytes.len() ==> is_hex_byte(text, #[trigger] bytes[i], i)
}

/// Whether the two digits of byte `i` of a text stand for `byte`.
pub open spec fn is_hex_byte(text: Seq<char>, byte: u8, i: int) -> bool {
    &&& hex_value(text[2 * i]) matches Some(high)
    &&& hex_value(text[2 * i + 1]) matches Some(low)
    &&& 16 * high + low == byte
}

proof fn lemma_hex(bytes: Seq<u8>)
    ensures
        is_hex(hex(bytes), bytes),
    decreases bytes.len(),
{
    if bytes.len() > 0 {
        let rest = bytes.drop_last();
        lemma_hex(rest);
        let text = hex(bytes);
        let before = hex(rest);
        assert forall|i: int| 0 <= i < bytes.len() implies is_hex_byte(
            text,
            #[trigger] bytes[i],
            i,
        ) by {
            if i < rest.len() {
                assert(rest[i] == bytes[i]);
                assert(is_hex_byte(before, rest[i], i));
                assert(text[2 * i] == before[2 * i]);
                assert(text[2 * i + 1] == before[2 * i + 1]);
            } else {
                let byte = bytes.last() as int;
                assert(text[2 * i] == hex_digit(byte / 16));
                assert(text[2 * i + 1] == hex_digit(byte % 16));
            }
        }
    }
}

/// Bytes are written in two hexadecimal digits each, so that they can be read back.
pub proof fn bytes_are_written_in_hex(bytes: &Vec<u8>, res: String)
    requires
        call_ensures(write_hex, (bytes,), res),
    ensures
        is_hex(res@, bytes@),
{
    lemma_hex(bytes@);
}

/// Whether a text is the name of the authority in a PEM file: `ccs-proxy-`, and the SHA-256 digest
/// of the certificate in hexadecimal digits.
pub open spec fn names_authority(name: Seq<char>, ca: Seq<u8>) -> bool {
    &&& pem_certificate(ca) matches Ok(der)
    &&& name.len() >= 10
    &&& name.take(10) == "ccs-proxy-"@
    &&& is_hex(name.skip(10), sha256(der))
}

proof fn lemma_authority_name(ca: Seq<u8>)
    ensures
        authority_name(ca) is Ok == pem_certificate(ca) is Ok,
        authority_name(ca) matches Ok(name) ==> names_authority(name, ca),
        authority_name(ca) matches Err(text) ==> pem_certificate(ca) == Err::<Seq<u8>, _>(text),
{
    if let Ok(der) = pem_certificate(ca) {
        reveal_strlit("ccs-proxy-");
        let name = "ccs-proxy-"@ + hex(sha256(der));
        lemma_hex(sha256(der));
        assert(name.take(10) =~= "ccs-proxy-"@);
        assert(name.skip(10) =~= hex(sha256(der)));
    }
}

proof fn lemma_one_hex(a: Seq<char>, b: Seq<char>, bytes: Seq<u8>)
    requires
        is_hex(a, bytes),
        is_hex(b, bytes),
    ensures
        a == b,
{
    assert forall|k: int| 0 <= k < a.len() implies a[k] == b[k] by {
        let i = k / 2;
        assert(is_hex_byte(a, bytes[i], i));
        assert(is_hex_byte(b, bytes[i], i));
        assert(k == 2 * i || k == 2 * i + 1);
    }
    assert(a =~= b);
}

proof fn lemma_one_name(name: Seq<char>, ca: Seq<u8>)
    requires
        names_authority(name, ca),
    ensures
        authority_name(ca) == Ok::<_, Seq<char>>(name),
{
    lemma_authority_name(ca);
    let known = authority_name(ca)->Ok_0;
    lemma_one_hex(name.skip(10), known.skip(10), sha256(pem_certificate(ca)->Ok_0));
    assert(name =~= name.take(10) + name.skip(10));
    assert(known =~= known.take(10) + known.skip(10));
}

/// An authority is stored under a name that holds the digest of its certificate: it tells one
/// authority from another.
pub proof fn authorities_are_named_by_digest(ca: &[u8], res: Result<String, TrustError>)
    requires
        call_ensures(ca_name, (ca,), res),
    ensures
        res is Ok == pem_certificate(ca@) is Ok,
        res matches Ok(name) ==> names_authority(name@, ca@),
        res matches Err(error) ==> (error matches TrustError::Failed(reason) && pem_certificate(ca@)
            == Err::<Seq<u8>, _>(reason@)),
{
    lemma_authority_name(ca@);
}

proof fn lemma_non_empty_pieces(left: Seq<Seq<char>>, right: Seq<Seq<char>>)
    ensures
        non_empty_pieces(left + right) == non_empty_pieces(left) + non_empty_pieces(right),
    decreases right.len(),
{
    if right.len() == 0 {
        assert(left + right =~= left);
        assert(non_empty_pieces(left) + non_empty_pieces(right) =~= non_empty_pieces(left));
    } else {
        lemma_non_empty_pieces(left, right.drop_last());
        assert((left + right).drop_last() =~= left + right.drop_last());
        assert(non_empty_pieces(left + right) =~= non_empty_pieces(left) + non_empty_pieces(right));
    }
}

proof fn lemma_words_at(a: Seq<char>, c: char, b: Seq<char>)
    requires
        separates(Separator::Whitespace, c),
    ensures
        words(a + seq![c] + b) == words(a) + words(b),
{
    lemma_split_at(a, c, b, Separator::Whitespace);
    lemma_non_empty_pieces(split(a, Separator::Whitespace), split(b, Separator::Whitespace));
}

proof fn lemma_one_word(word: Seq<char>)
    requires
        none_separates(Separator::Whitespace, word),
    ensures
        word.len() > 0 ==> words(word) == seq![word],
        word.len() == 0 ==> words(word) == Seq::<Seq<char>>::empty(),
{
    lemma_split_whole(word, Separator::Whitespace);
    let pieces = split(word, Separator::Whitespace);
    assert(pieces.drop_last() =~= Seq::<Seq<char>>::empty());
    assert(non_empty_pieces(pieces.drop_last()) =~= Seq::<Seq<char>>::empty());
    if word.len() > 0 {
        assert(words(word) =~= seq![word]);
    }
}

proof fn lemma_blanks_before(blanks: Seq<char>, rest: Seq<char>)
    requires
        all_separate(Separator::Whitespace, blanks),
    ensures
        words(blanks + rest) == words(rest),
    decreases blanks.len(),
{
    if blanks.len() > 0 {
        assert(separates(Separator::Whitespace, blanks[0]));
        let more = blanks.drop_first();
        assert(all_separate(Separator::Whitespace, more));
        let none = Seq::<char>::empty();
        assert(blanks + rest =~= none + seq![blanks[0]] + (more + rest));
        lemma_words_at(none, blanks[0], more + rest);
        lemma_one_word(none);
        lemma_blanks_before(more, rest);
        assert(words(none) + words(rest) =~= words(rest));
    } else {
        assert(blanks + rest =~= rest);
    }
}

/// A line of blanks has no words, and a line without blanks is one word.
pub proof fn words_are_between_blanks(line: &str, res: Vec<String>)
    requires
        call_ensures(words_of, (line,), res),
    ensures
        all_separate(Separator::Whitespace, line@) ==> res@.len() == 0,
        line@.len() > 0 && none_separates(Separator::Whitespace, line@) ==> res@.len() == 1
            && res@[0]@ == line@,
{
    assert(texts(res@).len() == res@.len());
    if all_separate(Separator::Whitespace, line@) {
        let none = Seq::<char>::empty();
        assert(line@ =~= line@ + none);
        lemma_blanks_before(line@, none);
        lemma_one_word(none);
    }
    if line@.len() > 0 && none_separates(Separator::Whitespace, line@) {
        lemma_one_word(line@);
        assert(texts(res@)[0] == res@[0]@);
    }
}

/// A blank parts a line: its words are those of what stands before, then those of what stands
/// behind.
pub proof fn blank_parts_the_words(
    left: &str,
    c: char,
    right: &str,
    line: &str,
    left_words: Vec<String>,
    right_words: Vec<String>,
    res: Vec<String>,
    i: int,
)
    requires
        separates(Separator::Whitespace, c),
        line@ == left@ + seq![c] + right@,
        call_ensures(words_of, (left,), left_words),
        call_ensures(words_of, (right,), right_words),
        call_ensures(words_of, (line,), res),
    ensures
        res@.len() == left_words@.len() + right_words@.len(),
        0 <= i < left_words@.len() ==> res@[i]@ == left_words@[i]@,
        left_words@.len() <= i < res@.len() ==> res@[i]@ == right_words@[i - left_words@.len()]@,
{
    lemma_words_at(left@, c, right@);
    assert(texts(res@).len() == res@.len());
    assert(texts(left_words@).len() == left_words@.len());
    assert(texts(right_words@).len() == right_words@.len());
    if 0 <= i < res@.len() {
        assert(texts(res@)[i] == res@[i]@);
        if i < left_words@.len() {
            assert(texts(left_words@)[i] == left_words@[i]@);
        } else {
            assert(texts(right_words@)[i - left_words@.len()] == right_words@[i
                - left_words@.len()]@);
        }
    }
}

/// A list lets an authority vouch for servers if one of its lines does.
pub proof fn one_line_of_a_list_is_enough(
    above: &str,
    under: &str,
    list: &str,
    name: &str,
    in_above: bool,
    in_under: bool,
    res: bool,
)
    requires
        list@ == above@ + seq!['\n'] + under@,
        call_ensures(nss_list_trusts, (above, name), in_above),
        call_ensures(nss_list_trusts, (under, name), in_under),
        call_ensures(nss_list_trusts, (list, name), res),
    ensures
        res == (in_above || in_under),
{
    lemma_split_at(above@, '\n', under@, Separator::Newline);
    let first = split(above@, Separator::Newline);
    let second = split(under@, Separator::Newline);
    let lines = split(list@, Separator::Newline);
    assert(lines == first + second);
    if list_vouches(list@, name@) {
        let i = choose|i: int| 0 <= i < lines.len() && vouches(#[trigger] lines[i], name@);
        if i < first.len() {
            assert(first[i] == lines[i]);
        } else {
            assert(second[i - first.len()] == lines[i]);
        }
    }
    if list_vouches(above@, name@) {
        let i = choose|i: int| 0 <= i < first.len() && vouches(#[trigger] first[i], name@);
        assert(lines[i] == first[i]);
    }
    if list_vouches(under@, name@) {
        let i = choose|i: int| 0 <= i < second.len() && vouches(#[trigger] second[i], name@);
        assert(lines[first.len() + i] == second[i]);
    }
}

/// A line lets an authority vouch for servers exactly if its first word is the name of the
/// authority, and the second one holds a `C` before its first comma.
pub proof fn line_vouches_by_its_first_flags(
    lead: Seq<char>,
    word: Seq<char>,
    gap: Seq<char>,
    group: Seq<char>,
    others: Seq<char>,
    tail: Seq<char>,
    line: &str,
    name: &str,
    res: bool,
)
    requires
        none_separates(Separator::Newline, line@),
        line@ == lead + word + gap + group + others + tail,
        all_separate(Separator::Whitespace, lead),
        word.len() > 0,
        none_separates(Separator::Whitespace, word),
        gap.len() > 0,
        all_separate(Separator::Whitespace, gap),
        group.len() + others.len() > 0,
        none_separates(Separator::Whitespace, group + others),
        none_separates(Separator::Comma, group),
        others.len() > 0 ==> others[0] == ',',
        tail.len() > 0 ==> separates(Separator::Whitespace, tail[0]),
        call_ensures(nss_list_trusts, (line, name), res),
    ensures
        res == (word == name@ && exists|i: int| 0 <= i < group.len() && #[trigger] group[i] == 'C'),
{
    let flags = group + others;
    let none = Seq::<char>::empty();
    lemma_split_whole(line@, Separator::Newline);
    let lines = split(line@, Separator::Newline);
    assert(lines[0] == line@);
    let more = flags + tail;
    assert(line@ =~= lead + (word + gap + more));
    lemma_blanks_before(lead, word + gap + more);
    assert(separates(Separator::Whitespace, gap[0]));
    let blanks = gap.drop_first();
    assert(all_separate(Separator::Whitespace, blanks));
    assert(word + gap + more =~= word + seq![gap[0]] + (blanks + more));
    lemma_words_at(word, gap[0], blanks + more);
    lemma_one_word(word);
    lemma_blanks_before(blanks, more);
    lemma_one_word(flags);
    if tail.len() > 0 {
        assert(more =~= flags + seq![tail[0]] + tail.drop_first());
        lemma_words_at(flags, tail[0], tail.drop_first());
    } else {
        assert(more =~= flags);
        assert(words(more) =~= seq![flags] + Seq::<Seq<char>>::empty());
    }
    let fields = words(line@);
    assert(fields[0] == word);
    assert(fields[1] == flags);
    if others.len() > 0 {
        assert(flags =~= group + seq![','] + others.drop_first());
        lemma_split_at(group, ',', others.drop_first(), Separator::Comma);
    } else {
        assert(flags =~= group);
    }
    lemma_split_whole(group, Separator::Comma);
    assert(split(flags, Separator::Comma)[0] == group);
    assert(group.contains('C') == exists|i: int| 0 <= i < group.len() && #[trigger] group[i] == 'C');
    if list_vouches(line@, name@) {
        let i = choose|i: int| 0 <= i < lines.len() && vouches(#[trigger] lines[i], name@);
        assert(i == 0);
    }
    assert(vouches(lines[0], name@) ==> list_vouches(line@, name@));
}

/// A line with fewer than two words vouches for nobody.
pub proof fn short_line_vouches_for_nobody(
    lead: Seq<char>,
    word: Seq<char>,
    tail: Seq<char>,
    line: &str,
    name: &str,
    res: bool,
)
    requires
        none_separates(Separator::Newline, line@),
        line@ == lead + word + tail,
        all_separate(Separator::Whitespace, lead),
        none_separates(Separator::Whitespace, word),
        all_separate(Separator::Whitespace, tail),
        call_ensures(nss_list_trusts, (line, name), res),
    ensures
        !res,
{
    let none = Seq::<char>::empty();
    lemma_split_whole(line@, Separator::Newline);
    let lines = split(line@, Separator::Newline);
    assert(line@ =~= lead + (word + tail));
    lemma_blanks_before(lead, word + tail);
    lemma_one_word(word);
    lemma_one_word(none);
    if tail.len() > 0 {
        let blanks = tail.drop_first();
        assert(separates(Separator::Whitespace, tail[0]));
        assert(all_separate(Separator::Whitespace, blanks));
        assert(word + tail =~= word + seq![tail[0]] + blanks);
        lemma_words_at(word, tail[0], blanks);
        assert(blanks =~= blanks + none);
        lemma_blanks_before(blanks, none);
    } else {
        assert(word + tail =~= word);
    }
    assert(words(line@).len() <= 1);
    if list_vouches(line@, name@) {
        let i = choose|i: int| 0 <= i < lines.len() && vouches(#[trigger] lines[i], name@);
        assert(lines[i] == line@);
    }
}

/// Whether a command is this program with these arguments, and sees the whole environment.
pub open spec fn is_command(
    command: Command,
    program: Seq<char>,
    arguments: Seq<Seq<char>>,
) -> bool {
    &&& command.program@ == program
    &&& command.unset@.len() == 0
    &&& command.arguments@.len() == arguments.len()
    &&& forall|i: int|
        0 <= i < arguments.len() ==> (#[trigger] command.arguments@[i])@ == arguments[i]
}

pub(crate) proof fn lemma_command(command: Command, program: Seq<char>, arguments: Seq<Seq<char>>)
    requires
        command@ == crate::trust::plain_command(program, arguments),
    ensures
        is_command(command, program, arguments),
{
    assert(texts(command.unset@).len() == command.unset@.len());
    assert(texts(command.arguments@).len() == command.arguments@.len());
    assert forall|i: int| 0 <= i < arguments.len() implies (#[trigger] command.arguments@[i])@
        == arguments[i] by {
        assert(texts(command.arguments@)[i] == command.arguments@[i]@);
    }
}

/// Whether a command shows the entry of the authority in a database.
pub open spec fn shows_entry(command: Command, database: Seq<char>, ca: Seq<u8>) -> bool {
    exists|name: Seq<char>| #[trigger]
        names_authority(name, ca) && is_command(
            command,
            "certutil"@,
            seq!["-L"@, "-d"@, "sql:"@ + database, "-n"@, name, "-a"@],
        )
}

/// Whether a command lists the entries of a database.
pub open spec fn lists_entries(command: Command, database: Seq<char>) -> bool {
    is_command(command, "certutil"@, seq!["-L"@, "-d"@, "sql:"@ + database])
}

/// Whether a command adds the authority to a database, as one that may vouch for servers.
pub open spec fn adds_entry(
    command: Command,
    database: Seq<char>,
    ca: Seq<u8>,
    ca_path: Seq<char>,
) -> bool {
    exists|name: Seq<char>| #[trigger]
        names_authority(name, ca) && is_command(
            command,
            "certutil"@,
            seq!["-A"@, "-d"@, "sql:"@ + database, "-n"@, name, "-t"@, "C,,"@, "-i"@, ca_path],
        )
}

/// The check starts by asking OpenSSL about the server certificate, with the authority as an
/// untrusted one, for `localhost`, without the variables that name other authorities.
pub proof fn check_starts_with_openssl(trust: &LinuxTrust, res: CheckStep)
    requires
        call_ensures(begin_check, (trust,), res),
    ensures
        res.stage is Verifying,
        res.action matches TrustAction::Run(command) && {
            &&& command.program@ == "openssl"@
            &&& command.unset@.len() == 2
            &&& command.unset@[0]@ == "SSL_CERT_FILE"@
            &&& command.unset@[1]@ == "SSL_CERT_DIR"@
            &&& command.arguments@.len() == 8
            &&& command.arguments@[0]@ == "verify"@
            &&& command.arguments@[1]@ == "-purpose"@
            &&& command.arguments@[2]@ == "sslserver"@
            &&& command.arguments@[3]@ == "-verify_hostname"@
            &&& command.arguments@[4]@ == "localhost"@
            &&& command.arguments@[5]@ == "-untrusted"@
            &&& command.arguments@[6]@ == trust.ca_path@
            &&& command.arguments@[7]@ == trust.cert_path@
        },
{
    let command = res.action->Run_0;
    let arguments = texts(command.arguments@);
    let unset = texts(command.unset@);
    assert(arguments.len() == command.arguments@.len() && unset.len() == command.unset@.len());
    assert(unset[0] == command.unset@[0]@ && unset[1] == command.unset@[1]@);
    assert forall|i: int| 0 <= i < 8 implies arguments[i] == (#[trigger] command.arguments@[i])@ by {
    }
    assert(arguments[0] == "verify"@);
}

/// Whether the check ends with this answer.
pub open spec fn check_answers(step: CheckStep, trusted: bool) -> bool {
    step.stage is Finished && step.action == TrustAction::<bool>::Finish(Ok(trusted))
}

/// Whether the check ends with this text as the reason.
pub open spec fn check_stops(step: CheckStep, text: Seq<char>) -> bool {
    step.stage is Finished && (step.action matches TrustAction::Finish(Err(error)) && (
    error matches TrustError::Failed(reason) && reason@ == text))
}

/// Whether the check looks at database `i` next, or is over if there is none.
pub open spec fn check_looks_at(step: CheckStep, trust: LinuxTrust, i: int) -> bool {
    if i >= trust.databases@.len() {
        check_answers(step, true)
    } else {
        match pem_certificate(trust.ca@) {
            Err(text) => check_stops(step, text),
            Ok(_) => {
                &&& step.stage matches CheckStage::Showing(shown)
                &&& shown as int == i
                &&& step.action matches TrustAction::Run(command)
                &&& shows_entry(command, trust.databases@[i]@, trust.ca@)
            },
        }
    }
}

proof fn lemma_checks_database(trust: LinuxTrust, i: int, step: CheckStep)
    requires
        0 <= i <= usize::MAX,
        crate::linux::checks_database(trust, i, step),
    ensures
        check_looks_at(step, trust, i),
{
    lemma_authority_name(trust.ca@);
    if i < trust.databases@.len() {
        if let Ok(name) = authority_name(trust.ca@) {
            assert(trust.databases.len() == trust.databases@.len());
            let database = trust.databases@[i]@;
            lemma_command(
                step.action->Run_0,
                "certutil"@,
                seq!["-L"@, "-d"@, "sql:"@ + database, "-n"@, name, "-a"@],
            );
            assert(shows_entry(step.action->Run_0, database, trust.ca@));
        }
    }
}

/// The certificate counts as trusted only step by step: OpenSSL accepts it, then every database in
/// turn shows the very certificate of the authority, and lists it as one that may vouch for
/// servers. The first that does not ends the check with a no; where nothing says no, it ends with a
/// yes.
pub proof fn check_goes_on_only_with_a_yes(
    trust: &LinuxTrust,
    stage: CheckStage,
    outcome: &Outcome,
    list: &str,
    name: &str,
    vouched: bool,
    res: CheckStep,
)
    requires
        call_ensures(continue_check, (trust, stage, outcome), res),
        call_ensures(nss_list_trusts, (list, name), vouched),
        list@ == utf8_lossy(outcome.stdout@),
        pem_certificate(trust.ca@) is Ok ==> names_authority(name@, trust.ca@),
        stage matches CheckStage::Listing(i) ==> i < trust.databases@.len(),
    ensures
        stage is Verifying ==> if outcome.success {
            check_looks_at(res, *trust, 0)
        } else {
            check_answers(res, false)
        },
        stage matches CheckStage::Showing(i) ==> if !outcome.success {
            check_answers(res, false)
        } else {
            match (pem_certificate(outcome.stdout@), pem_certificate(trust.ca@)) {
                (Err(text), _) => check_stops(res, text),
                (Ok(_), Err(text)) => check_stops(res, text),
                (Ok(entry), Ok(der)) => if entry == der {
                    res.stage == CheckStage::Listing(i) && (
                    res.action matches TrustAction::Run(command) && lists_entries(
                        command,
                        trust.databases@[i as int]@,
                    ))
                } else {
                    check_answers(res, false)
                },
            }
        },
        stage matches CheckStage::Listing(i) ==> if !outcome.success {
            res.stage is Finished && res.action == TrustAction::<bool>::Finish(
                Err(TrustError::UnreadableDatabase),
            )
        } else {
            match pem_certificate(trust.ca@) {
                Err(text) => check_stops(res, text),
                Ok(_) => if vouched {
                    check_looks_at(res, *trust, i + 1)
                } else {
                    check_answers(res, false)
                },
            }
        },
{
    lemma_authority_name(trust.ca@);
    if pem_certificate(trust.ca@) is Ok {
        lemma_one_name(name@, trust.ca@);
    }
    assert(trust.databases.len() == trust.databases@.len());
    match stage {
        CheckStage::Verifying => {
            if outcome.success {
                lemma_checks_database(*trust, 0, res);
            }
        },
        CheckStage::Showing(i) => {
            if res.stage is Listing {
                lemma_command(
                    res.action->Run_0,
                    "certutil"@,
                    seq!["-L"@, "-d"@, "sql:"@ + trust.databases@[i as int]@],
                );
            }
        },
        CheckStage::Listing(i) => {
            if outcome.success && vouched && pem_certificate(trust.ca@) is Ok {
                lemma_checks_database(*trust, i + 1, res);
            }
        },
        CheckStage::Finished => {},
    }
}

/// Whether the request ends with this error.
pub open spec fn request_stops(step: RequestStep, error: TrustError) -> bool {
    step.stage is Finished && step.action == TrustAction::<()>::Finish(Err(error))
}

/// Whether the request ends with this text as the reason.
pub open spec fn request_stops_with(step: RequestStep, text: Seq<char>) -> bool {
    step.stage is Finished && (step.action matches TrustAction::Finish(Err(error)) && (
    error matches TrustError::Failed(reason) && reason@ == text))
}

/// Whether the request looks at database `i` next, or identifies the user if there is none.
pub open spec fn request_looks_at(step: RequestStep, trust: LinuxTrust, i: int) -> bool {
    match pem_certificate(trust.ca@) {
        Err(text) => request_stops_with(step, text),
        Ok(_) => if i < trust.databases@.len() {
            &&& step.stage matches RequestStage::Showing(shown)
            &&& shown as int == i
            &&& step.action matches TrustAction::Run(command)
            &&& shows_entry(command, trust.databases@[i]@, trust.ca@)
        } else {
            &&& step.stage is Identifying
            &&& step.action matches TrustAction::Run(command)
            &&& is_command(command, "id"@, seq!["-u"@])
        },
    }
}

/// Whether the request adds the authority to database `i` next, or is done if there is none.
pub open spec fn request_adds(step: RequestStep, trust: LinuxTrust, i: int) -> bool {
    if i >= trust.databases@.len() {
        step.stage is Finished && step.action == TrustAction::<()>::Finish(Ok(()))
    } else {
        match pem_certificate(trust.ca@) {
            Err(text) => request_stops_with(step, text),
            Ok(_) => {
                &&& step.stage matches RequestStage::Adding(added)
                &&& added as int == i
                &&& step.action matches TrustAction::Run(command)
                &&& adds_entry(command, trust.databases@[i]@, trust.ca@, trust.ca_path@)
            },
        }
    }
}

proof fn lemma_inspects(trust: LinuxTrust, i: int, step: RequestStep)
    requires
        0 <= i,
        crate::linux::inspects(trust, i, step),
    ensures
        request_looks_at(step, trust, i),
{
    lemma_authority_name(trust.ca@);
    assert(trust.databases.len() == trust.databases@.len());
    if let Ok(name) = authority_name(trust.ca@) {
        let command = step.action->Run_0;
        if i < trust.databases@.len() {
            let database = trust.databases@[i]@;
            lemma_command(
                command,
                "certutil"@,
                seq!["-L"@, "-d"@, "sql:"@ + database, "-n"@, name, "-a"@],
            );
            assert(shows_entry(command, database, trust.ca@));
        } else {
            lemma_command(command, "id"@, seq!["-u"@]);
        }
    }
}

proof fn lemma_adds(trust: LinuxTrust, i: int, step: RequestStep)
    requires
        0 <= i,
        crate::linux::adds(trust, i, step),
    ensures
        request_adds(step, trust, i),
{
    lemma_authority_name(trust.ca@);
    assert(trust.databases.len() == trust.databases@.len());
    if i < trust.databases@.len() {
        if let Ok(name) = authority_name(trust.ca@) {
            let database = trust.databases@[i]@;
            lemma_command(
                step.action->Run_0,
                "certutil"@,
                seq![
                    "-A"@,
                    "-d"@,
                    "sql:"@ + database,
                    "-n"@,
                    name,
                    "-t"@,
                    "C,,"@,
                    "-i"@,
                    trust.ca_path@,
                ],
            );
            assert(adds_entry(step.action->Run_0, database, trust.ca@, trust.ca_path@));
        }
    }
}

/// What a shell is run with, by a user who is the administrator or can become one.
pub open spec fn shell_is(
    program: Seq<char>,
    before: Seq<Seq<char>>,
    root: bool,
    session: Session,
) -> bool {
    if root {
        program == "/bin/sh"@ && before == Seq::<Seq<char>>::empty()
    } else if session.graphical && session.pkexec {
        program == "pkexec"@ && before == seq!["/bin/sh"@]
    } else {
        session.sudo && program == "sudo"@ && before == seq!["--"@, "/bin/sh"@]
    }
}

/// Whether a command installs the authority: the administrator's shell runs a fixed script, which
/// gets the file of the authority, its place in the store, and the command of the store as
/// arguments.
pub open spec fn installs_authority(
    command: Command,
    trust: LinuxTrust,
    store: LinuxStore,
    session: Session,
    root: bool,
) -> bool {
    exists|before: Seq<Seq<char>>, name: Seq<char>, place: Seq<char>|
        #![trigger names_authority(name, trust.ca@), is_below(place, store.directory@, name
            + ".crt"@), shell_is(command.program@, before, root, session)]
        names_authority(name, trust.ca@) && is_below(place, store.directory@, name + ".crt"@)
            && shell_is(command.program@, before, root, session) && is_command(
            command,
            command.program@,
            before + seq![
                "-c"@,
                "set -eu; source=$1; destination=$2; shift 2; install -D -m 0644 -- \"$source\" \"$destination\"; exec \"$@\""@,
                "ccs-proxy-trust"@,
                trust.ca_path@,
                place,
                store.update@,
            ] + texts(store.args@),
        )
}

proof fn lemma_installs(
    trust: LinuxTrust,
    store: LinuxStore,
    session: Session,
    root: bool,
    step: RequestStep,
)
    requires
        crate::linux::installs(trust, store@, session, root, step),
    ensures
        match pem_certificate(trust.ca@) {
            Err(text) => request_stops_with(step, text),
            Ok(_) => if !root && !(session.graphical && session.pkexec) && !session.sudo {
                request_stops(step, TrustError::MissingAuthorization)
            } else {
                step.stage is Installing && (step.action matches TrustAction::Run(command)
                    && installs_authority(command, trust, store, session, root))
            },
        },
{
    lemma_authority_name(trust.ca@);
    if let Ok(name) = authority_name(trust.ca@) {
        if step.stage is Installing {
            let command = step.action->Run_0;
            let place = crate::linux::path_below(store.directory@, name + ".crt"@);
            let before = if root {
                Seq::<Seq<char>>::empty()
            } else if session.graphical && session.pkexec {
                seq!["/bin/sh"@]
            } else {
                seq!["--"@, "/bin/sh"@]
            };
            let arguments = before + seq![
                "-c"@,
                INSTALL_SCRIPT@,
                "ccs-proxy-trust"@,
                trust.ca_path@,
                place,
                store.update@,
            ] + texts(store.args@);
            assert(shell_is(command.program@, before, root, session));
            assert(command@.arguments =~= arguments);
            assert(command@.unset =~= Seq::<Seq<char>>::empty());
            assert(command@ == crate::trust::plain_command(command.program@, arguments));
            lemma_command(command, command.program@, arguments);
            assert(is_below(place, store.directory@, name + ".crt"@));
            assert(names_authority(name, trust.ca@));
        }
    }
}

/// The request starts by looking at the first database.
pub proof fn request_starts_by_looking(trust: &LinuxTrust, res: RequestStep)
    requires
        call_ensures(begin_request, (trust,), res),
    ensures
        request_looks_at(res, *trust, 0),
{
    lemma_inspects(*trust, 0, res);
}

/// The request looks at every database first, whatever it finds there, but stops where one cannot
/// be read. Then it identifies the user, installs the authority as the administrator, and adds it
/// to every database. The first command that fails ends it with an error of its own.
pub proof fn request_covers_the_system_and_every_database(
    trust: &LinuxTrust,
    store: &LinuxStore,
    session: &Session,
    stage: RequestStage,
    outcome: &Outcome,
    res: RequestStep,
)
    requires
        call_ensures(continue_request, (trust, store, session, stage, outcome), res),
    ensures
        stage matches RequestStage::Showing(i) ==> if !outcome.success {
            request_looks_at(res, *trust, i + 1)
        } else {
            match (pem_certificate(outcome.stdout@), pem_certificate(trust.ca@)) {
                (Err(text), _) => request_stops_with(res, text),
                (Ok(_), Err(text)) => request_stops_with(res, text),
                (Ok(entry), Ok(der)) => if entry == der {
                    res.stage == RequestStage::Listing(i) && (
                    res.action matches TrustAction::Run(command) && lists_entries(
                        command,
                        trust.databases@[i as int]@,
                    ))
                } else {
                    request_looks_at(res, *trust, i + 1)
                },
            }
        },
        stage matches RequestStage::Listing(i) ==> if outcome.success {
            request_looks_at(res, *trust, i + 1)
        } else {
            request_stops(res, TrustError::UnreadableDatabase)
        },
        stage is Identifying && !outcome.success ==> request_stops(res, TrustError::UnknownUser),
        stage is Identifying && outcome.success ==> ({
            let root = outcome.stdout@ == seq![48u8, 10u8];
            match pem_certificate(trust.ca@) {
                Err(text) => request_stops_with(res, text),
                Ok(_) => if !root && !(session.graphical && session.pkexec) && !session.sudo {
                    request_stops(res, TrustError::MissingAuthorization)
                } else {
                    res.stage is Installing && (res.action matches TrustAction::Run(command)
                        && installs_authority(command, *trust, *store, *session, root))
                },
            }
        }),
        stage is Installing ==> if outcome.success {
            request_adds(res, *trust, 0)
        } else {
            request_stops(res, TrustError::LinuxDeclined)
        },
        stage matches RequestStage::Adding(i) ==> if outcome.success {
            request_adds(res, *trust, i + 1)
        } else {
            request_stops(res, TrustError::DatabaseNotChanged)
        },
{
    match stage {
        RequestStage::Showing(i) => {
            if res.stage is Listing {
                lemma_command(
                    res.action->Run_0,
                    "certutil"@,
                    seq!["-L"@, "-d"@, "sql:"@ + trust.databases@[i as int]@],
                );
            } else if !outcome.success || (pem_certificate(outcome.stdout@) is Ok
                && pem_certificate(trust.ca@) is Ok) {
                lemma_inspects(*trust, i + 1, res);
            }
        },
        RequestStage::Listing(i) => {
            if outcome.success {
                lemma_inspects(*trust, i + 1, res);
            }
        },
        RequestStage::Identifying => {
            if outcome.success {
                let root = crate::linux::is_root_id(outcome.stdout@);
                lemma_installs(*trust, *store, *session, root, res);
            }
        },
        RequestStage::Installing => {
            if outcome.success {
                lemma_adds(*trust, 0, res);
            }
        },
        RequestStage::Adding(i) => {
            if outcome.success {
                lemma_adds(*trust, i + 1, res);
            }
        },
        RequestStage::Finished => {},
    }
}

} // verus!
