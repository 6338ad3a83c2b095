//! What the file list shows: the repository header, a heading for each
//! section with its size, two lines per file, the selected item and the
//! filter being typed.
use vstd::prelude::*;

use crate::app::{App, Panel};
use crate::app_stage::{filtered_indices, passes_filter};
use crate::status::{key_of, label_text, section_text, FileEntry, FileStatus};
use crate::styled::{
    blinking, bold_fg, empty_line, in_fg, no_lines, line_model, lines_model, one_run, plain, push_line, push_run, span,
    span_lit, Styled, StyledModel,
};
use crate::text::{chars_of, dec_digits, push_decimal, string_of, trim_text, trim_ws};
use crate::theme::{Color, Theme};

verus! {

broadcast use vstd::seq_lib::group_seq_properties;

/// A list item as plain values: its lines.
pub type ItemModel = Seq<Seq<StyledModel>>;

/// The file list: title, border colour, items (one or two lines each), the
/// highlighted item, and the filter line while filtering.
pub struct FileListView {
    pub title: &'static str,
    pub border: Color,
    pub items: Vec<Vec<Vec<Styled>>>,
    pub selected: Option<usize>,
    pub filter_line: Option<Vec<Styled>>,
}

pub open spec fn items_model(items: Seq<Vec<Vec<Styled>>>) -> Seq<ItemModel> {
    items.map_values(|it: Vec<Vec<Styled>>| lines_model(it@))
}

/// The position of the last `'/'` among the first `n` characters.
pub open spec fn last_slash_before(p: Seq<char>, n: int) -> Option<int>
    decreases n,
{
    if n <= 0 {
        None
    } else if p[n - 1] == '/' {
        Some(n - 1)
    } else {
        last_slash_before(p, n - 1)
    }
}

/// The last component of a path.
pub open spec fn file_name(p: Seq<char>) -> Seq<char> {
    match last_slash_before(p, p.len() as int) {
        Some(k) => p.skip(k + 1),
        None => p,
    }
}

/// The colour of a status label.
pub open spec fn status_color(s: FileStatus, theme: Theme) -> Color {
    match s {
        FileStatus::Staged(_) => theme.green,
        FileStatus::Unstaged(_) => theme.yellow,
        FileStatus::Conflict => theme.red,
        FileStatus::Untracked => theme.gray,
    }
}

/// The second line of a file: its directory, then `+n -m` line counts.
pub open spec fn second_runs(e: FileEntry, theme: Theme) -> Seq<StyledModel> {
    let p = e.path@;
    let d = match last_slash_before(p, p.len() as int) {
        Some(k) => seq![in_fg("    "@ + trim_ws(" "@ + p.take(k + 1)), theme.fg_dim)],
        None => Seq::empty(),
    };
    let stats = if e.insertions > 0 || e.deletions > 0 {
        seq![plain(if d.len() > 0 { " "@ } else { "     "@ })] + (if e.insertions > 0 {
            seq![in_fg("+"@ + dec_digits(e.insertions as nat), theme.green)]
        } else {
            Seq::empty()
        }) + (if e.deletions > 0 {
            (if e.insertions > 0 {
                seq![plain(" "@)]
            } else {
                Seq::empty()
            }) + seq![in_fg("-"@ + dec_digits(e.deletions as nat), theme.red)]
        } else {
            Seq::empty()
        })
    } else {
        Seq::empty()
    };
    d + stats
}

/// The item of a file: label and name, then the second line if it has one.
pub open spec fn file_item(e: FileEntry, theme: Theme) -> ItemModel {
    let first = seq![
        plain("  "@),
        in_fg(label_text(e.status) + " "@, status_color(e.status, theme)),
        in_fg(file_name(e.path@), theme.fg),
    ];
    if second_runs(e, theme).len() == 0 {
        seq![first]
    } else {
        seq![first, second_runs(e, theme)]
    }
}

/// How many of the first `n` entries are shown and lie in section `k`.
pub open spec fn section_count(es: Seq<FileEntry>, filter: Option<String>, k: int, n: int) -> nat
    decreases n,
{
    if n <= 0 {
        0
    } else {
        section_count(es, filter, k, n - 1) + if passes_filter(es[n - 1].path@, filter) && key_of(
            es[n - 1].status,
        ) == k {
            1nat
        } else {
            0nat
        }
    }
}

/// The heading of a section with the number of its shown files.
pub open spec fn section_item(es: Seq<FileEntry>, filter: Option<String>, s: FileStatus, theme: Theme) -> ItemModel {
    seq![
        seq![
            bold_fg(
                " "@ + section_text(s) + " ("@ + dec_digits(section_count(es, filter, key_of(s), es.len() as int))
                    + ")"@,
                theme.yellow,
            ),
        ],
    ]
}

/// The items after the header for the first `n` entries, which entry each
/// item shows, and the section of the last shown entry.
pub open spec fn list_fold(es: Seq<FileEntry>, filter: Option<String>, theme: Theme, n: int) -> (
    Seq<ItemModel>,
    Seq<Option<usize>>,
    Option<int>,
)
    decreases n,
{
    if n <= 0 {
        (Seq::empty(), Seq::empty(), None)
    } else {
        let (items, map, cur) = list_fold(es, filter, theme, n - 1);
        let e = es[n - 1];
        if !passes_filter(e.path@, filter) {
            (items, map, cur)
        } else {
            let k = key_of(e.status);
            let (items2, map2) = if cur != Some(k) {
                (items.push(section_item(es, filter, e.status, theme)), map.push(None))
            } else {
                (items, map)
            };
            (items2.push(file_item(e, theme)), map2.push(Some((n - 1) as usize)), Some(k))
        }
    }
}

/// The header item: "Repository", highlighted while selected in the
/// focused list.
pub open spec fn header_item(selected: bool, focused: bool, theme: Theme) -> ItemModel {
    seq![
        seq![
            plain(" "@),
            if selected && focused {
                bold_fg("Repository"@, theme.cyan)
            } else {
                in_fg("Repository"@, theme.fg)
            },
        ],
    ]
}

/// All items of the list.
pub open spec fn list_items(app: App) -> Seq<ItemModel> {
    seq![header_item(app.header_selected, app.active_panel == Panel::FileList, app.theme)] + list_fold(
        app.file_entries@,
        app.file_filter,
        app.theme,
        app.file_entries.len() as int,
    ).0
}

/// Which entry each item shows (`None` for the header and the headings).
pub open spec fn list_map(app: App) -> Seq<Option<usize>> {
    seq![None] + list_fold(app.file_entries@, app.file_filter, app.theme, app.file_entries.len() as int).1
}

/// The first item showing entry `sel`.
pub open spec fn first_item_of(map: Seq<Option<usize>>, sel: usize) -> Option<usize> {
    if exists|j: int| 0 <= j < map.len() && map[j] == Some(sel) {
        Some(
            (choose|j: int|
                0 <= j < map.len() && map[j] == Some(sel) && forall|i: int|
                    0 <= i < j ==> map[i] != Some(sel)) as usize,
        )
    } else {
        None
    }
}

/// The file list's title.
pub open spec fn list_title(filtering: bool) -> Seq<char> {
    if filtering {
        " Source Control (filtering) "@
    } else {
        " Source Control "@
    }
}

/// The filter line: a slash, the filter and a blinking cursor.
pub open spec fn filter_runs(f: Seq<char>, theme: Theme) -> Seq<StyledModel> {
    seq![in_fg("/"@, theme.cyan), in_fg(f, theme.fg), ("_"@, Some(theme.fg), None, false, true)]
}

proof fn lemma_filtered_indices(es: Seq<FileEntry>, filter: Option<String>)
    requires
        es.len() <= usize::MAX,
    ensures
        forall|j: int|
            0 <= j < filtered_indices(es, filter).len() ==> (#[trigger] filtered_indices(es, filter)[j])
                < es.len(),
        forall|i: int|
            0 <= i < es.len() ==> (passes_filter(es[i].path@, filter) <==> filtered_indices(es, filter).contains(
                i as usize,
            )),
    decreases es.len(),
{
    if es.len() > 0 {
        let pre = es.drop_last();
        lemma_filtered_indices(pre, filter);
        let fp = filtered_indices(pre, filter);
        let f = filtered_indices(es, filter);
        assert forall|i: int| 0 <= i < es.len() implies (passes_filter(es[i].path@, filter)
            <==> f.contains(i as usize)) by {
            if i < es.len() - 1 {
                assert(pre[i] == es[i]);
                if fp.contains(i as usize) {
                    let j = choose|j: int| 0 <= j < fp.len() && fp[j] == i as usize;
                    assert(f[j] == i as usize);
                }
                if f.contains(i as usize) {
                    let j = choose|j: int| 0 <= j < f.len() && f[j] == i as usize;
                    if j < fp.len() {
                        assert(fp[j] == i as usize);
                    }
                }
            } else {
                if passes_filter(es[i].path@, filter) {
                    assert(f[fp.len() as int] == i as usize);
                }
                if f.contains(i as usize) {
                    let j = choose|j: int| 0 <= j < f.len() && f[j] == i as usize;
                    if j < fp.len() {
                        assert(fp[j] < pre.len());
                    }
                }
            }
        }
    }
}

/// Which entries pass the filter, one flag per entry.
fn shown_flags(app: &App) -> (shown: Vec<bool>)
    ensures
        shown.len() == app.file_entries.len(),
        forall|i: int|
            0 <= i < shown.len() ==> #[trigger] shown@[i] == passes_filter(app.file_entries@[i].path@, app.file_filter),
{
    let n = app.file_entries.len();
    let r = app.filtered_entries();
    let ghost fi = filtered_indices(app.file_entries@, app.file_filter);
    proof {
        lemma_filtered_indices(app.file_entries@, app.file_filter);
        assert(forall|j: int| 0 <= j < r.len() ==> #[trigger] r@[j].0 == fi[j]) by {
            assert forall|j: int| 0 <= j < r.len() implies #[trigger] r@[j].0 == fi[j] by {
                assert(r@.map_values(|p: (usize, &FileEntry)| p.0)[j] == r@[j].0);
            }
        }
    }
    let mut shown: Vec<bool> = Vec::new();
    let mut i: usize = 0;
    while i < n
        invariant
            i <= n,
            n == app.file_entries.len(),
            shown.len() == i,
            forall|j: int| 0 <= j < i ==> !(#[trigger] shown@[j]),
        decreases n - i,
    {
        shown.push(false);
        i = i + 1;
    }
    let mut k: usize = 0;
    while k < r.len()
        invariant
            k <= r.len(),
            n == app.file_entries.len(),
            r@.len() == fi.len(),
            forall|j: int| 0 <= j < r.len() ==> #[trigger] r@[j].0 == fi[j],
            forall|j: int| 0 <= j < fi.len() ==> (#[trigger] fi[j]) < n,
            shown.len() == n,
            forall|x: int|
                0 <= x < n ==> (#[trigger] shown@[x] <==> exists|j: int| 0 <= j < k && fi[j] == x as usize),
        decreases r.len() - k,
    {
        let idx = r[k].0;
        assert(idx == fi[k as int]);
        shown[idx] = true;
        assert forall|x: int| 0 <= x < n implies (#[trigger] shown@[x] <==> exists|j: int|
            0 <= j < k + 1 && fi[j] == x as usize) by {
            if x == idx as int {
                assert(fi[k as int] == x as usize);
            } else {
                if exists|j: int| 0 <= j < k + 1 && fi[j] == x as usize {
                    let j = choose|j: int| 0 <= j < k + 1 && fi[j] == x as usize;
                    assert(j < k);
                }
            }
        }
        k = k + 1;
    }
    assert forall|x: int| 0 <= x < n implies #[trigger] shown@[x] == passes_filter(
        app.file_entries@[x].path@,
        app.file_filter,
    ) by {
        if fi.contains(x as usize) {
            let j = choose|j: int| 0 <= j < fi.len() && fi[j] == x as usize;
            assert(j < r.len());
        }
    }
    shown
}

/// How many shown entries lie in section `k`.
fn count_section(es: &Vec<FileEntry>, shown: &Vec<bool>, filter: Ghost<Option<String>>, k: u8) -> (c: usize)
    requires
        shown.len() == es.len(),
        forall|i: int| 0 <= i < shown.len() ==> #[trigger] shown@[i] == passes_filter(es@[i].path@, filter@),
    ensures
        c == section_count(es@, filter@, k as int, es.len() as int),
{
    let mut c: usize = 0;
    let mut j: usize = 0;
    while j < es.len()
        invariant
            j <= es.len(),
            shown.len() == es.len(),
            forall|i: int| 0 <= i < shown.len() ==> #[trigger] shown@[i] == passes_filter(es@[i].path@, filter@),
            c == section_count(es@, filter@, k as int, j as int),
            c <= j,
        decreases es.len() - j,
    {
        if shown[j] && es[j].status.sort_key() == k {
            c = c + 1;
        }
        j = j + 1;
    }
    c
}

/// The position of the last `'/'` in `v`.
fn last_slash(v: &Vec<char>) -> (r: Option<usize>)
    ensures
        match r {
            Some(k) => last_slash_before(v@, v.len() as int) == Some(k as int) && k < v.len(),
            None => last_slash_before(v@, v.len() as int) is None,
        },
{
    let mut k: usize = v.len();
    while k > 0 && v[k - 1] != '/'
        invariant
            k <= v.len(),
            last_slash_before(v@, v.len() as int) == last_slash_before(v@, k as int),
        decreases k,
    {
        k = k - 1;
    }
    if k == 0 {
        None
    } else {
        Some(k - 1)
    }
}

fn file_item_exec(e: &FileEntry, theme: &Theme) -> (it: Vec<Vec<Styled>>)
    ensures
        lines_model(it@) == file_item(*e, *theme),
{
    let color = match e.status {
        FileStatus::Staged(_) => theme.green,
        FileStatus::Unstaged(_) => theme.yellow,
        FileStatus::Conflict => theme.red,
        FileStatus::Untracked => theme.gray,
    };
    let v = chars_of(e.path.as_str());
    let slash = last_slash(&v);
    let name = match slash {
        Some(k) => string_of(&v, k + 1, v.len()),
        None => e.path.clone(),
    };
    assert(name@ == file_name(e.path@)) by {
        if let Some(k) = slash {
            assert(v@.subrange(k + 1, v.len() as int) =~= e.path@.skip(k + 1));
        }
    }
    let mut first: Vec<Styled> = empty_line();
    push_run(&mut first, span_lit("  ", None, None, false));
    let mut label = String::new();
    label.push_str(e.status.short_label());
    label.push_str(" ");
    push_run(&mut first, span(label, Some(color), None, false));
    push_run(&mut first, span(name, Some(theme.fg), None, false));
    let mut second: Vec<Styled> = empty_line();
    match slash {
        Some(k) => {
            let parent = string_of(&v, 0, k + 1);
            let mut spaced = String::new();
            spaced.push_str(" ");
            spaced.push_str(parent.as_str());
            let mut d = String::new();
            d.push_str("    ");
            d.push_str(trim_text(spaced.as_str()).as_str());
            assert(v@.subrange(0, k + 1) =~= e.path@.take(k + 1));
            push_run(&mut second, span(d, Some(theme.fg_dim), None, false));
        },
        None => {},
    }
    let ghost d_model = line_model(second@);
    if e.insertions > 0 || e.deletions > 0 {
        if second.len() > 0 {
            push_run(&mut second, span_lit(" ", None, None, false));
        } else {
            push_run(&mut second, span_lit("     ", None, None, false));
        }
        if e.insertions > 0 {
            let mut t = String::new();
            t.push_str("+");
            push_decimal(&mut t, e.insertions as u64);
            push_run(&mut second, span(t, Some(theme.green), None, false));
        }
        if e.deletions > 0 {
            if e.insertions > 0 {
                push_run(&mut second, span_lit(" ", None, None, false));
            }
            let mut t = String::new();
            t.push_str("-");
            push_decimal(&mut t, e.deletions as u64);
            push_run(&mut second, span(t, Some(theme.red), None, false));
        }
    }
    assert(line_model(second@) =~= second_runs(*e, *theme));
    assert(line_model(first@) =~= file_item(*e, *theme)[0]);
    assert(second.len() == second_runs(*e, *theme).len());
    let mut it: Vec<Vec<Styled>> = no_lines();
    push_line(&mut it, first);
    if second.len() > 0 {
        push_line(&mut it, second);
    }
    assert(lines_model(it@) =~= file_item(*e, *theme));
    it
}

fn push_item(items: &mut Vec<Vec<Vec<Styled>>>, it: Vec<Vec<Styled>>)
    ensures
        items_model(final(items)@) == items_model(old(items)@).push(lines_model(it@)),
{
    let ghost m = lines_model(it@);
    items.push(it);
    assert(items_model(items@) =~= items_model(old(items)@).push(m));
}

/// The first item that shows entry `sel`.
fn find_item(map: &Vec<Option<usize>>, sel: usize) -> (r: Option<usize>)
    ensures
        r == first_item_of(map@, sel),
{
    let mut j: usize = 0;
    while j < map.len()
        invariant
            j <= map.len(),
            forall|i: int| 0 <= i < j ==> map@[i] != Some(sel),
        decreases map.len() - j,
    {
        if map[j] == Some(sel) {
            let ghost c = choose|x: int|
                0 <= x < map@.len() && map@[x] == Some(sel) && forall|i: int| 0 <= i < x ==> map@[i] != Some(sel);
            assert(c == j as int) by {
                if c < j {
                    assert(map@[c] != Some(sel));
                }
                if c > j {
                    assert(map@[j as int] == Some(sel));
                }
            }
            return Some(j);
        }
        j = j + 1;
    }
    None
}

/// What the file list shows.
pub fn file_list_view(app: &App) -> (v: FileListView)
    ensures
        v.title@ == list_title(app.file_filter is Some),
        v.border == (if app.active_panel == Panel::FileList {
            app.theme.cyan
        } else {
            app.theme.fg_dim
        }),
        items_model(v.items@) == list_items(*app),
        v.selected == (if app.header_selected {
            Some(0usize)
        } else {
            first_item_of(list_map(*app), app.selected_index)
        }),
        match app.file_filter {
            Some(f) => v.filter_line matches Some(l) && line_model(l@) == filter_runs(f@, app.theme),
            None => v.filter_line is None,
        },
{
    let theme = &app.theme;
    let focused = app.active_panel == Panel::FileList;
    let es = &app.file_entries;
    let shown = shown_flags(app);
    let ghost filter = app.file_filter;
    let mut items: Vec<Vec<Vec<Styled>>> = Vec::new();
    assert(items_model(items@) =~= Seq::<ItemModel>::empty());
    let mut header: Vec<Styled> = empty_line();
    push_run(&mut header, span_lit(" ", None, None, false));
    if app.header_selected && focused {
        push_run(&mut header, span_lit("Repository", Some(theme.cyan), None, true));
    } else {
        push_run(&mut header, span_lit("Repository", Some(theme.fg), None, false));
    }
    assert(line_model(header@) =~= header_item(app.header_selected, focused, *theme)[0]);
    let mut hi: Vec<Vec<Styled>> = no_lines();
    push_line(&mut hi, header);
    assert(lines_model(hi@) =~= header_item(app.header_selected, focused, *theme));
    push_item(&mut items, hi);
    let mut map: Vec<Option<usize>> = Vec::new();
    map.push(None);
    let ghost head = items_model(items@);
    assert(head =~= seq![header_item(app.header_selected, focused, *theme)]);
    let mut cur: Option<u8> = None;
    let mut i: usize = 0;
    while i < es.len()
        invariant
            i <= es.len(),
            filter == app.file_filter,
            shown.len() == es.len(),
            forall|x: int| 0 <= x < shown.len() ==> #[trigger] shown@[x] == passes_filter(es@[x].path@, filter),
            items_model(items@) == head + list_fold(es@, filter, *theme, i as int).0,
            map@ == seq![None] + list_fold(es@, filter, *theme, i as int).1,
            match cur {
                Some(k) => list_fold(es@, filter, *theme, i as int).2 == Some(k as int),
                None => list_fold(es@, filter, *theme, i as int).2 is None,
            },
        decreases es.len() - i,
    {
        let ghost before = list_fold(es@, filter, *theme, i as int);
        if shown[i] {
            let e = &es[i];
            let k = e.status.sort_key();
            if cur != Some(k) {
                let count = count_section(es, &shown, Ghost(filter), k);
                let mut t = String::new();
                t.push_str(" ");
                t.push_str(e.status.section_name());
                t.push_str(" (");
                push_decimal(&mut t, count as u64);
                t.push_str(")");
                let mut si: Vec<Vec<Styled>> = no_lines();
                push_line(&mut si, one_run(span(t, Some(theme.yellow), None, true)));
                assert(lines_model(si@) =~= section_item(es@, filter, e.status, *theme));
                push_item(&mut items, si);
                map.push(None);
            }
            push_item(&mut items, file_item_exec(e, theme));
            map.push(Some(i));
            cur = Some(k);
        }
        assert(items_model(items@) =~= head + list_fold(es@, filter, *theme, i + 1).0);
        assert(map@ =~= seq![None] + list_fold(es@, filter, *theme, i + 1).1);
        i = i + 1;
    }
    let selected = if app.header_selected {
        Some(0)
    } else {
        find_item(&map, app.selected_index)
    };
    let filter_line = match &app.file_filter {
        Some(f) => {
            let mut l: Vec<Styled> = empty_line();
            push_run(&mut l, span_lit("/", Some(theme.cyan), None, false));
            push_run(&mut l, span(f.clone(), Some(theme.fg), None, false));
            push_run(&mut l, blinking("_", theme.fg));
            Some(l)
        },
        None => None,
    };
    let title = if app.file_filter.is_some() {
        " Source Control (filtering) "
    } else {
        " Source Control "
    };
    FileListView {
        title,
        border: if focused {
            theme.cyan
        } else {
            theme.fg_dim
        },
        items,
        selected,
        filter_line,
    }
}

} // verus!
