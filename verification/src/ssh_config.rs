//! Reading an SSH client configuration: the hosts it declares, the files it
//! includes, and which of those hosts are offered as Codex sources.
use vstd::prelude::*;

use crate::importer::opt_view;
use crate::models::CodexSourceCandidate;
use crate::sources::{hex_digits, ignored_host_reason, ignored_reason, sanitized, source_id_for_alias};
use crate::text::{
    chars_eq_str, chars_of, ends_with, ends_with_chars, find_from, lower_chars,
    lower_seq, occurs_at, parse_i64, parsed_i64, parts_view, split_chars, split_seq,
    starts_with, starts_with_chars, string_from_chars, words_of, words_seq, chars_less, text_lt,
    str_eq, lemma_text_lt_asymmetric, lemma_text_lt_transitive, lemma_text_lt_total,
};

verus! {

// ---------------------------------------------------------------------------
// Wildcards in include patterns
// ---------------------------------------------------------------------------

/// After position `start` of `v`, each piece but the last occurs in turn,
/// each after some characters, and `v` ends with the last piece, which
/// begins at or after where the one before it ended.
pub open spec fn pieces_follow(ps: Seq<Seq<char>>, v: Seq<char>, start: int) -> bool
    decreases ps.len(),
{
    if ps.len() <= 1 {
        ps.len() == 1 && ends_with(v, ps[0]) && start <= v.len() - ps[0].len()
    } else {
        exists|i: int|
            start <= i && #[trigger] occurs_at(v, ps[0], i) && pieces_follow(
                ps.drop_first(),
                v,
                i + ps[0].len(),
            )
    }
}

/// `value` matches `pattern`, in which each `*` stands for any characters:
/// without a `*` the two are equal; with one, `value` starts with the part
/// before the first `*`, and the other parts follow in order, the last at
/// the very end.
pub open spec fn star_match(pattern: Seq<char>, value: Seq<char>) -> bool {
    let pieces = split_seq(pattern, '*');
    if pieces.len() == 1 {
        value == pattern
    } else {
        starts_with(value, pieces[0]) && pieces_follow(pieces.drop_first(), value, pieces[0].len() as int)
    }
}

/// Where the pieces can follow from `b`, they can from any earlier `a`.
proof fn lemma_pieces_follow_earlier(ps: Seq<Seq<char>>, v: Seq<char>, a: int, b: int)
    requires
        a <= b,
        pieces_follow(ps, v, b),
    ensures
        pieces_follow(ps, v, a),
    decreases ps.len(),
{
    if ps.len() > 1 {
        let i = choose|i: int|
            b <= i && #[trigger] occurs_at(v, ps[0], i) && pieces_follow(ps.drop_first(), v, i + ps[0].len());
        assert(a <= i && occurs_at(v, ps[0], i));
    }
}

/// Whether `value` matches the wildcard `pattern`; the pieces between the
/// stars are looked for from left to right, each at its first place.
pub fn simple_star_match(pattern: &str, value: &str) -> (r: bool)
    ensures
        r == star_match(pattern@, value@),
{
    let p = chars_of(pattern);
    let v = chars_of(value);
    let pieces = split_chars(&p, '*');
    proof {
        crate::text::lemma_split_nonempty(p@, '*');
    }
    let ghost all = split_seq(pattern@, '*');
    if pieces.len() == 1 {
        assert(p@ =~= all[0]) by {
            lemma_one_piece(pattern@, '*');
        }
        return crate::text::chars_eq(&v, &p);
    }
    if !starts_with_chars(&v, &pieces[0]) {
        return false;
    }
    let mut pos: usize = pieces[0].len();
    let ghost tail = all.drop_first();
    let mut k: usize = 1;
    while k + 1 < pieces.len()
        invariant
            pieces@.len() == all.len(),
            forall|m: int| 0 <= m < pieces@.len() ==> #[trigger] pieces@[m]@ == all[m],
            all.len() >= 2,
            tail == all.drop_first(),
            1 <= k < pieces@.len(),
            pos <= v@.len(),
            v@ == value@,
            all == split_seq(pattern@, '*'),
            starts_with(value@, all[0]),
            pieces_follow(tail, v@, all[0].len() as int) == pieces_follow(
                all.skip(k as int),
                v@,
                pos as int,
            ),
        decreases pieces.len() - k,
    {
        let ghost rest = all.skip(k as int);
        assert(rest[0] == all[k as int]);
        assert(rest.drop_first() =~= all.skip(k as int + 1));
        let piece = &pieces[k];
        if piece.len() == 0 {
            proof {
                assert(rest[0] =~= Seq::<char>::empty());
                assert(v@.subrange(pos as int, pos as int) =~= rest[0]);
                assert(occurs_at(v@, rest[0], pos as int));
                if pieces_follow(rest, v@, pos as int) {
                    let i = choose|i: int|
                        pos <= i && #[trigger] occurs_at(v@, rest[0], i) && pieces_follow(
                            rest.drop_first(),
                            v@,
                            i + rest[0].len(),
                        );
                    lemma_pieces_follow_earlier(rest.drop_first(), v@, pos as int, i);
                }
            }
        } else {
            match find_from(&v, piece, pos) {
                Some(i) => {
                    proof {
                        if pieces_follow(rest, v@, pos as int) {
                            let j = choose|j: int|
                                pos <= j && #[trigger] occurs_at(v@, rest[0], j) && pieces_follow(
                                    rest.drop_first(),
                                    v@,
                                    j + rest[0].len(),
                                );
                            lemma_pieces_follow_earlier(
                                rest.drop_first(),
                                v@,
                                i + rest[0].len(),
                                j + rest[0].len(),
                            );
                        }
                    }
                    assert(piece@ == rest[0]);
                    assert(i + piece.len() <= v.len());
                    pos = i + piece.len();
                },
                None => {
                    proof {
                        if pieces_follow(rest, v@, pos as int) {
                            let j = choose|j: int|
                                pos <= j && #[trigger] occurs_at(v@, rest[0], j) && pieces_follow(
                                    rest.drop_first(),
                                    v@,
                                    j + rest[0].len(),
                                );
                            assert(piece@ == rest[0]);
                            assert(!occurs_at(v@, piece@, j));
                        }
                    }
                    return false;
                },
            }
        }
        k += 1;
    }
    let last = &pieces[k];
    assert(all.skip(k as int) =~= seq![all[k as int]]);
    if last.len() > v.len() - pos {
        return false;
    }
    ends_with_chars(&v, last)
}

proof fn lemma_one_piece(s: Seq<char>, sep: char)
    requires
        split_seq(s, sep).len() == 1,
    ensures
        split_seq(s, sep)[0] == s,
    decreases s.len(),
{
    if s.len() > 0 {
        crate::text::lemma_split_nonempty(s.drop_last(), sep);
        if s.last() == sep {
        } else {
            lemma_one_piece(s.drop_last(), sep);
            assert(s.drop_last().push(s.last()) =~= s);
        }
    }
}

// ---------------------------------------------------------------------------
// Host blocks
// ---------------------------------------------------------------------------

/// The settings of one `Host` block that matter here.
#[derive(Debug, Clone)]
pub struct HostBlock {
    pub aliases: Vec<String>,
    pub host_name: Option<String>,
    pub user: Option<String>,
    pub port: Option<i64>,
}

#[verifier::ext_equal]
pub struct HostBlockView {
    pub aliases: Seq<Seq<char>>,
    pub host_name: Option<Seq<char>>,
    pub user: Option<Seq<char>>,
    pub port: Option<i64>,
}

pub open spec fn strings_view(v: Seq<String>) -> Seq<Seq<char>> {
    v.map_values(|s: String| s@)
}

impl View for HostBlock {
    type V = HostBlockView;

    open spec fn view(&self) -> HostBlockView {
        HostBlockView {
            aliases: strings_view(self.aliases@),
            host_name: opt_view(self.host_name),
            user: opt_view(self.user),
            port: self.port,
        }
    }
}

/// A block with no alias and no setting, as a configuration starts with.
pub open spec fn empty_block() -> HostBlockView {
    HostBlockView { aliases: Seq::empty(), host_name: None, user: None, port: None }
}

fn new_block() -> (r: HostBlock)
    ensures
        r@ == empty_block(),
{
    let aliases: Vec<String> = Vec::new();
    let r = HostBlock { aliases, host_name: None, user: None, port: None };
    assert(r@.aliases =~= Seq::<Seq<char>>::empty());
    r
}

/// The aliases of a block that are offered: those with no reason to be
/// ignored.
pub open spec fn offered_aliases(b: HostBlockView) -> Seq<Seq<char>>
    decreases b.aliases.len(),
{
    if b.aliases.len() == 0 {
        Seq::empty()
    } else {
        let before = offered_aliases(HostBlockView { aliases: b.aliases.drop_last(), ..b });
        if ignored_reason(b.aliases.last(), b.host_name, b.user) is None {
            before.push(b.aliases.last())
        } else {
            before
        }
    }
}

/// The id a source gets from its alias: `ssh_` and the alias reduced to a
/// safe component, or, where nothing of it is left, `ssh_` and a hash of it
/// in hexadecimal.
pub open spec fn id_for_alias(id: Seq<char>, alias: Seq<char>) -> bool {
    &&& sanitized(alias).len() > 0 ==> id == "ssh_"@ + sanitized(alias)
    &&& sanitized(alias).len() == 0 ==> exists|h: u64| id == "ssh_"@ + hex_digits(h as nat)
}

/// The candidate a block offers for one of its aliases.
pub open spec fn candidate_for(c: CodexSourceCandidate, alias: Seq<char>, b: HostBlockView) -> bool {
    &&& id_for_alias(c.id@, alias)
    &&& c.label@ == alias
    &&& c.ssh_alias@ == alias
    &&& opt_view(c.host_name) == b.host_name
    &&& opt_view(c.user) == b.user
    &&& c.port == b.port
    &&& c.remote_codex_home@ == "~/.codex"@
    &&& c.ignored_reason is None
}

/// Adds to `candidates` a candidate for each offered alias of the block, in
/// the order of the aliases.
pub fn flush_host_block(block: &HostBlock, candidates: &mut Vec<CodexSourceCandidate>)
    ensures
        final(candidates)@.len() == old(candidates)@.len() + offered_aliases(block@).len(),
        forall|k: int| 0 <= k < old(candidates)@.len() ==> final(candidates)@[k] == old(candidates)@[k],
        forall|k: int|
            0 <= k < offered_aliases(block@).len() ==> candidate_for(
                #[trigger] final(candidates)@[old(candidates)@.len() + k],
                offered_aliases(block@)[k],
                block@,
            ),
{
    let ghost start = candidates@.len();
    let ghost b = block@;
    let mut i: usize = 0;
    while i < block.aliases.len()
        invariant
            i <= block.aliases@.len(),
            b == block@,
            candidates@.len() == start + offered_aliases(
                HostBlockView { aliases: b.aliases.take(i as int), ..b },
            ).len(),
            forall|k: int| 0 <= k < start ==> candidates@[k] == old(candidates)@[k],
            start == old(candidates)@.len(),
            forall|k: int|
                0 <= k < offered_aliases(HostBlockView { aliases: b.aliases.take(i as int), ..b }).len()
                    ==> candidate_for(
                    #[trigger] candidates@[start + k],
                    offered_aliases(HostBlockView { aliases: b.aliases.take(i as int), ..b })[k],
                    b,
                ),
        decreases block.aliases.len() - i,
    {
        let alias = &block.aliases[i];
        let ghost prev = HostBlockView { aliases: b.aliases.take(i as int), ..b };
        let ghost next = HostBlockView { aliases: b.aliases.take(i + 1), ..b };
        assert(next.aliases.drop_last() =~= prev.aliases);
        assert(HostBlockView { aliases: next.aliases.drop_last(), ..next } == prev);
        assert(next.aliases.last() == alias@);
        let host_name: Option<&str> = match &block.host_name {
            Some(h) => Some(h.as_str()),
            None => None,
        };
        let user: Option<&str> = match &block.user {
            Some(u) => Some(u.as_str()),
            None => None,
        };
        let reason = ignored_host_reason(alias.as_str(), host_name, user);
        if reason.is_none() {
            let c = CodexSourceCandidate {
                id: source_id_for_alias(alias.as_str()),
                label: alias.clone(),
                ssh_alias: alias.clone(),
                host_name: crate::models::copy_opt_string(&block.host_name),
                user: crate::models::copy_opt_string(&block.user),
                port: block.port,
                remote_codex_home: "~/.codex".to_owned(),
                ignored_reason: None,
            };
            proof {
                reveal_strlit("~/.codex");
            }
            candidates.push(c);
        }
        i += 1;
    }
    assert(b.aliases.take(block.aliases.len() as int) =~= b.aliases);
}

// ---------------------------------------------------------------------------
// The lines of a configuration
// ---------------------------------------------------------------------------

/// What a configuration yields, in order: each finished host block, and the
/// pattern of each file it includes.
#[derive(Debug, Clone)]
pub enum SshConfigItem {
    Block(HostBlock),
    Include(String),
}

pub enum ItemView {
    Block(HostBlockView),
    Include(Seq<char>),
}

impl View for SshConfigItem {
    type V = ItemView;

    open spec fn view(&self) -> ItemView {
        match self {
            SshConfigItem::Block(b) => ItemView::Block(b@),
            SshConfigItem::Include(p) => ItemView::Include(p@),
        }
    }
}

pub open spec fn items_view(items: Seq<SshConfigItem>) -> Seq<ItemView> {
    items.map_values(|i: SshConfigItem| i@)
}

/// The block being read and the items finished so far.
pub struct ConfigScan {
    pub block: HostBlockView,
    pub items: Seq<ItemView>,
}

pub open spec fn first_word(rest: Seq<Seq<char>>) -> Option<Seq<char>> {
    if rest.len() > 0 {
        Some(rest[0])
    } else {
        None
    }
}

/// One line: its comment cut off at `#`, its words split at whitespace,
/// and its first word, in lower case, telling what it sets. `Include`
/// finishes the block and names files to include; `Host` finishes the
/// block and starts one for the aliases that follow; `HostName`, `User` and
/// `Port` take the first word after them.
pub open spec fn config_line_step(st: ConfigScan, line: Seq<char>) -> ConfigScan {
    let words = words_seq(split_seq(line, '#')[0]);
    if words.len() == 0 {
        st
    } else {
        let keyword = lower_seq(words[0]);
        let rest = words.skip(1);
        if keyword == "include"@ {
            ConfigScan {
                block: empty_block(),
                items: st.items.push(ItemView::Block(st.block)) + rest.map_values(
                    |p: Seq<char>| ItemView::Include(p),
                ),
            }
        } else if keyword == "host"@ {
            ConfigScan {
                block: HostBlockView { aliases: rest, ..empty_block() },
                items: st.items.push(ItemView::Block(st.block)),
            }
        } else if keyword == "hostname"@ {
            ConfigScan { block: HostBlockView { host_name: first_word(rest), ..st.block }, ..st }
        } else if keyword == "user"@ {
            ConfigScan { block: HostBlockView { user: first_word(rest), ..st.block }, ..st }
        } else if keyword == "port"@ {
            ConfigScan {
                block: HostBlockView {
                    port: match first_word(rest) {
                        Some(w) => parsed_i64(w),
                        None => None,
                    },
                    ..st.block
                },
                ..st
            }
        } else {
            st
        }
    }
}

pub open spec fn config_scan(lines: Seq<Seq<char>>) -> ConfigScan
    decreases lines.len(),
{
    if lines.len() == 0 {
        ConfigScan { block: empty_block(), items: Seq::empty() }
    } else {
        config_line_step(config_scan(lines.drop_last()), lines.last())
    }
}

/// The items of a configuration: those of its lines, then the last block.
pub open spec fn config_items(content: Seq<char>) -> Seq<ItemView> {
    let st = config_scan(split_seq(content, '\n'));
    st.items.push(ItemView::Block(st.block))
}

fn strings_of_parts(parts: &Vec<Vec<char>>, from: usize) -> (r: Vec<String>)
    requires
        from <= parts@.len(),
    ensures
        strings_view(r@) == parts_view(parts@).skip(from as int),
{
    let mut r: Vec<String> = Vec::new();
    let mut i: usize = from;
    while i < parts.len()
        invariant
            from <= i <= parts@.len(),
            strings_view(r@) == parts_view(parts@).subrange(from as int, i as int),
        decreases parts.len() - i,
    {
        let ghost before = r@;
        r.push(string_from_chars(parts[i].as_slice()));
        assert(strings_view(r@) =~= strings_view(before).push(parts@[i as int]@));
        assert(parts_view(parts@).subrange(from as int, i + 1) =~= parts_view(parts@).subrange(
            from as int,
            i as int,
        ).push(parts@[i as int]@));
        i += 1;
    }
    assert(parts_view(parts@).subrange(from as int, parts@.len() as int) =~= parts_view(parts@).skip(
        from as int,
    ));
    r
}

fn take_block(block: &mut HostBlock) -> (r: HostBlock)
    ensures
        r@ == old(block)@,
        final(block)@ == empty_block(),
{
    let mut fresh = new_block();
    std::mem::swap(block, &mut fresh);
    fresh
}

fn apply_line(block: &mut HostBlock, items: &mut Vec<SshConfigItem>, line: &[char])
    ensures
        config_line_step(ConfigScan { block: old(block)@, items: items_view(old(items)@) }, line@)
            == (ConfigScan { block: final(block)@, items: items_view(final(items)@) }),
{
    let ghost st = ConfigScan { block: block@, items: items_view(items@) };
    let pieces = split_chars(line, '#');
    proof {
        crate::text::lemma_split_nonempty(line@, '#');
    }
    let words = words_of(pieces[0].as_slice());
    if words.len() == 0 {
        return;
    }
    let keyword = lower_chars(words[0].as_slice());
    let ghost rest = parts_view(words@).skip(1);
    assert(parts_view(words@)[0] == words@[0]@);
    if chars_eq_str(&keyword, "include") {
        let finished = take_block(block);
        let ghost before = items_view(items@);
        items.push(SshConfigItem::Block(finished));
        let patterns = strings_of_parts(&words, 1);
        let mut k: usize = 0;
        while k < patterns.len()
            invariant
                k <= patterns@.len(),
                strings_view(patterns@) == rest,
                items_view(items@) == before.push(ItemView::Block(st.block)) + rest.take(
                    k as int,
                ).map_values(|p: Seq<char>| ItemView::Include(p)),
            decreases patterns.len() - k,
        {
            let ghost prev = items@;
            items.push(SshConfigItem::Include(patterns[k].clone()));
            assert(rest[k as int] == patterns@[k as int]@);
            assert(rest.take(k + 1).map_values(|p: Seq<char>| ItemView::Include(p)) =~= rest.take(
                k as int,
            ).map_values(|p: Seq<char>| ItemView::Include(p)).push(ItemView::Include(rest[k as int])));
            assert(items_view(items@) =~= items_view(prev).push(ItemView::Include(rest[k as int])));
            k += 1;
        }
        assert(rest.take(patterns@.len() as int) =~= rest);
        proof {
            reveal_strlit("include");
        }
    } else if chars_eq_str(&keyword, "host") {
        let aliases = strings_of_parts(&words, 1);
        let finished = take_block(block);
        items.push(SshConfigItem::Block(finished));
        block.aliases = aliases;
        proof {
            reveal_strlit("include");
            reveal_strlit("host");
        }
        assert(items_view(items@) =~= st.items.push(ItemView::Block(st.block)));
    } else if chars_eq_str(&keyword, "hostname") {
        block.host_name = if words.len() > 1 {
            Some(string_from_chars(words[1].as_slice()))
        } else {
            None
        };
        proof {
            reveal_strlit("include");
            reveal_strlit("host");
            reveal_strlit("hostname");
        }
    } else if chars_eq_str(&keyword, "user") {
        block.user = if words.len() > 1 {
            Some(string_from_chars(words[1].as_slice()))
        } else {
            None
        };
        proof {
            reveal_strlit("include");
            reveal_strlit("host");
            reveal_strlit("hostname");
            reveal_strlit("user");
        }
    } else if chars_eq_str(&keyword, "port") {
        block.port = if words.len() > 1 {
            let w = string_from_chars(words[1].as_slice());
            parse_i64(w.as_str())
        } else {
            None
        };
        proof {
            reveal_strlit("include");
            reveal_strlit("host");
            reveal_strlit("hostname");
            reveal_strlit("user");
            reveal_strlit("port");
        }
    } else {
    }
}

/// The host blocks and include patterns of an SSH configuration's text, in
/// the order they come.
pub fn ssh_config_items(content: &str) -> (r: Vec<SshConfigItem>)
    ensures
        items_view(r@) == config_items(content@),
{
    let text = chars_of(content);
    let lines = split_chars(&text, '\n');
    let ghost all = split_seq(content@, '\n');
    let mut block = new_block();
    let mut items: Vec<SshConfigItem> = Vec::new();
    let mut i: usize = 0;
    assert(all.take(0) =~= Seq::<Seq<char>>::empty());
    assert(items_view(items@) =~= Seq::<ItemView>::empty());
    while i < lines.len()
        invariant
            i <= lines@.len(),
            lines@.len() == all.len(),
            forall|k: int| 0 <= k < lines@.len() ==> #[trigger] lines@[k]@ == all[k],
            config_scan(all.take(i as int)) == (ConfigScan {
                block: block@,
                items: items_view(items@),
            }),
        decreases lines.len() - i,
    {
        assert(all.take(i + 1).drop_last() =~= all.take(i as int));
        apply_line(&mut block, &mut items, lines[i].as_slice());
        i += 1;
    }
    assert(all.take(lines@.len() as int) =~= all);
    let ghost st = config_scan(all);
    items.push(SshConfigItem::Block(block));
    assert(items_view(items@) =~= st.items.push(ItemView::Block(st.block)));
    items
}

// ---------------------------------------------------------------------------
// The candidates offered
// ---------------------------------------------------------------------------

/// What candidates are ordered by: their label in ASCII lower case.
pub open spec fn label_key(c: CodexSourceCandidate) -> Seq<char> {
    lower_seq(c.label@)
}

/// Position `i` of `s` holds the first candidate with its id.
pub open spec fn first_with_id(s: Seq<CodexSourceCandidate>, i: int) -> bool {
    0 <= i < s.len() && forall|j: int| 0 <= j < i ==> s[j].id@ != s[i].id@
}

/// `r` holds the first candidate of each id of `s`, each once, ordered by
/// label key, those with equal keys in the order of `s`; `origin` tells for
/// each of them where it stood in `s`.
pub open spec fn deduped_and_sorted(
    r: Seq<CodexSourceCandidate>,
    s: Seq<CodexSourceCandidate>,
    origin: Seq<int>,
) -> bool {
    &&& origin.len() == r.len()
    &&& forall|k: int| 0 <= k < r.len() ==> first_with_id(s, #[trigger] origin[k]) && r[k] == s[origin[k]]
    &&& forall|i: int| first_with_id(s, i) ==> exists|k: int| 0 <= k < r.len() && #[trigger] origin[k] == i
    &&& forall|a: int, b: int| 0 <= a < b < r.len() ==> origin[a] != origin[b]
    &&& forall|a: int, b: int| 0 <= a < b < r.len() ==> !text_lt(label_key(r[b]), label_key(r[a]))
    &&& forall|a: int, b: int|
        0 <= a < b < r.len() && label_key(r[a]) == label_key(r[b]) ==> origin[a] < origin[b]
}

fn key_of(c: &CodexSourceCandidate) -> (r: Vec<char>)
    ensures
        r@ == label_key(*c),
{
    let label = chars_of(c.label.as_str());
    lower_chars(&label)
}

/// Keeps the first candidate of each id and orders them by label, ignoring
/// ASCII case; candidates with equal labels keep their order.
pub fn dedupe_candidates(candidates: Vec<CodexSourceCandidate>) -> (r: Vec<CodexSourceCandidate>)
    ensures
        exists|origin: Seq<int>| #[trigger] deduped_and_sorted(r@, candidates@, origin),
        forall|a: int, b: int| 0 <= a < b < r@.len() ==> r@[a].id@ != r@[b].id@,
{
    let ghost s = candidates@;
    let mut rest = candidates;
    let mut sorted: Vec<CodexSourceCandidate> = Vec::new();
    let ghost mut origin: Seq<int> = Seq::empty();
    let ghost mut i: int = 0;
    while rest.len() > 0
        invariant
            0 <= i <= s.len(),
            rest@ == s.skip(i),
            origin.len() == sorted@.len(),
            forall|k: int|
                0 <= k < sorted@.len() ==> first_with_id(s, #[trigger] origin[k]) && origin[k] < i
                    && sorted@[k] == s[origin[k]],
            forall|j: int|
                0 <= j < i && first_with_id(s, j) ==> exists|k: int|
                    0 <= k < sorted@.len() && #[trigger] origin[k] == j,
            forall|j: int|
                #![trigger s[j]]
                0 <= j < i ==> exists|k: int|
                    0 <= k < sorted@.len() && #[trigger] sorted@[k].id@ == s[j].id@,
            forall|a: int, b: int| 0 <= a < b < sorted@.len() ==> origin[a] != origin[b],
            forall|a: int, b: int|
                0 <= a < b < sorted@.len() ==> !text_lt(label_key(sorted@[b]), label_key(sorted@[a])),
            forall|a: int, b: int|
                0 <= a < b < sorted@.len() && label_key(sorted@[a]) == label_key(sorted@[b])
                    ==> origin[a] < origin[b],
        decreases rest.len(),
    {
        let c = rest.remove(0);
        assert(c == s[i]);
        assert(rest@ =~= s.skip(i + 1));
        let mut seen = false;
        let mut k: usize = 0;
        while k < sorted.len()
            invariant
                k <= sorted@.len(),
                !seen ==> forall|m: int| 0 <= m < k ==> sorted@[m].id@ != c.id@,
                seen ==> exists|m: int| 0 <= m < sorted@.len() && sorted@[m].id@ == c.id@,
            decreases sorted.len() - k,
        {
            if str_eq(sorted[k].id.as_str(), c.id.as_str()) {
                seen = true;
            }
            k += 1;
        }
        if seen {
            proof {
                let m = choose|m: int| 0 <= m < sorted@.len() && sorted@[m].id@ == c.id@;
                assert(origin[m] < i && s[origin[m]].id@ == s[i].id@);
                assert(!first_with_id(s, i));
            }
        } else {
            proof {
                assert forall|j: int| 0 <= j < i implies s[j].id@ != s[i].id@ by {
                    let m = choose|m: int| 0 <= m < sorted@.len() && #[trigger] sorted@[m].id@ == s[j].id@;
                    assert(sorted@[m].id@ != c.id@);
                }
                assert(first_with_id(s, i));
            }
            let key = key_of(&c);
            let mut p: usize = 0;
            let mut stop = false;
            while p < sorted.len() && !stop
                invariant
                    p <= sorted@.len(),
                    key@ == label_key(c),
                    forall|m: int| 0 <= m < p ==> !text_lt(key@, label_key(#[trigger] sorted@[m])),
                    stop ==> p < sorted@.len() && text_lt(key@, label_key(sorted@[p as int])),
                decreases sorted.len() - p, if stop { 0int } else { 1int },
            {
                let other = key_of(&sorted[p]);
                if chars_less(&key, &other) {
                    stop = true;
                } else {
                    p += 1;
                }
            }
            let ghost old_sorted = sorted@;
            let ghost old_origin = origin;
            proof {
                if p < sorted@.len() {
                    assert(text_lt(label_key(c), label_key(sorted@[p as int])));
                }
                assert forall|m: int| p <= m < old_sorted.len() implies text_lt(
                    label_key(c),
                    label_key(#[trigger] old_sorted[m]),
                ) by {
                    if m > p {
                        lemma_text_lt_total(label_key(old_sorted[p as int]), label_key(old_sorted[m]));
                        if text_lt(label_key(old_sorted[p as int]), label_key(old_sorted[m])) {
                            lemma_text_lt_transitive(
                                label_key(c),
                                label_key(old_sorted[p as int]),
                                label_key(old_sorted[m]),
                            );
                        }
                    }
                }
            }
            sorted.insert(p, c);
            proof {
                origin = old_origin.insert(p as int, i);
                assert forall|a: int, b: int| 0 <= a < b < sorted@.len() implies !text_lt(
                    label_key(sorted@[b]),
                    label_key(sorted@[a]),
                ) by {
                    if a < p && b == p {
                    } else if a == p && b > p {
                        lemma_text_lt_asymmetric(label_key(c), label_key(old_sorted[b - 1]));
                    } else if a < p && b > p {
                        assert(!text_lt(label_key(old_sorted[b - 1]), label_key(old_sorted[a])));
                    } else if b < p {
                    } else {
                        assert(!text_lt(label_key(old_sorted[b - 1]), label_key(old_sorted[a - 1])));
                    }
                }
                assert forall|a: int, b: int|
                    0 <= a < b < sorted@.len() && label_key(sorted@[a]) == label_key(
                        sorted@[b],
                    ) implies origin[a] < origin[b] by {
                    if a == p && b > p {
                        lemma_text_lt_asymmetric(label_key(c), label_key(old_sorted[b - 1]));
                    }
                }
                assert forall|j: int|
                    0 <= j < i + 1 && first_with_id(s, j) implies exists|k: int|
                        0 <= k < sorted@.len() && #[trigger] origin[k] == j by {
                    if j == i {
                        assert(origin[p as int] == i);
                    } else {
                        let k = choose|k: int| 0 <= k < old_sorted.len() && #[trigger] old_origin[k] == j;
                        if k < p {
                            assert(origin[k] == j);
                        } else {
                            assert(origin[k + 1] == j);
                        }
                    }
                }
                assert forall|j: int|
                    #![trigger s[j]]
                    0 <= j < i + 1 implies exists|k: int|
                        0 <= k < sorted@.len() && #[trigger] sorted@[k].id@ == s[j].id@ by {
                    if j == i {
                        assert(sorted@[p as int].id@ == s[j].id@);
                    } else {
                        let k = choose|k: int|
                            0 <= k < old_sorted.len() && #[trigger] old_sorted[k].id@ == s[j].id@;
                        if k < p {
                            assert(sorted@[k].id@ == s[j].id@);
                        } else {
                            assert(sorted@[k + 1].id@ == s[j].id@);
                        }
                    }
                }
            }
        }
        proof {
            i = i + 1;
        }
    }
    assert(deduped_and_sorted(sorted@, s, origin));
    proof {
        lemma_deduped_ids_distinct(sorted@, s, origin);
    }
    sorted
}

/// A deduplicated list holds each id once.
proof fn lemma_deduped_ids_distinct(
    r: Seq<CodexSourceCandidate>,
    s: Seq<CodexSourceCandidate>,
    origin: Seq<int>,
)
    requires
        deduped_and_sorted(r, s, origin),
    ensures
        forall|a: int, b: int| 0 <= a < b < r.len() ==> r[a].id@ != r[b].id@,
{
    assert forall|a: int, b: int| 0 <= a < b < r.len() implies r[a].id@ != r[b].id@ by {
        assert(first_with_id(s, origin[a]) && r[a] == s[origin[a]]);
        assert(first_with_id(s, origin[b]) && r[b] == s[origin[b]]);
        assert(origin[a] != origin[b]);
    }
}

} // verus!
