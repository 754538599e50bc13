//! Keyboard navigation: what a key press does to the interface state.
use vstd::prelude::*;
use vstd::utf8::encode_utf8;
use crate::app::TAB_COUNT;
use crate::types::{DiskInfo, DiskMode, FileEntry, SortMode};

verus! {

/// A key press, as far as the interface tells keys apart.
#[derive(Debug, Clone, Copy, PartialEq, Eq, Structural)]
pub enum Key {
    Char(char),
    Esc,
    Tab,
    BackTab,
    Enter,
    Right,
    Left,
    Up,
    Down,
    PageUp,
    PageDown,
    Other,
}

/// What the caller has to do after a key press.
#[derive(Debug, Clone, Copy, PartialEq, Eq, Structural)]
pub enum KeyOutcome {
    /// Nothing more: draw the new state.
    Stay,
    /// Leave the program.
    Quit,
    /// List the directory `disk_path` again, with the current order and filter.
    Rescan,
}

/// The lengths of the lists whose cursors stop at their last entry.
#[derive(Debug, Clone, Copy, PartialEq, Eq, Structural)]
pub struct ListCounts {
    pub regions: usize,
    pub connections: usize,
    pub processes: usize,
    pub services: usize,
}

/// The selected tab, the scroll positions of the tabs, and the state of the
/// disk browser.
#[derive(Debug, Clone)]
pub struct Nav {
    pub tab: usize,
    pub ram_scroll: usize,
    pub region_scroll: usize,
    pub cpu_scroll: usize,
    pub disk_cursor: usize,
    pub disk_file_cursor: usize,
    pub net_scroll: usize,
    pub activity_scroll: usize,
    pub process_scroll: usize,
    pub bt_scroll: usize,
    pub usb_scroll: usize,
    pub audio_scroll: usize,
    pub service_scroll: usize,
    pub thermal_scroll: usize,
    pub disk_mode: DiskMode,
    pub disk_sort: SortMode,
    pub disk_filter_system: bool,
    pub disk_path: String,
}

/// The mathematical content of a [`Nav`].
pub struct NavV {
    pub tab: usize,
    pub ram_scroll: usize,
    pub region_scroll: usize,
    pub cpu_scroll: usize,
    pub disk_cursor: usize,
    pub disk_file_cursor: usize,
    pub net_scroll: usize,
    pub activity_scroll: usize,
    pub process_scroll: usize,
    pub bt_scroll: usize,
    pub usb_scroll: usize,
    pub audio_scroll: usize,
    pub service_scroll: usize,
    pub thermal_scroll: usize,
    pub disk_mode: DiskMode,
    pub disk_sort: SortMode,
    pub disk_filter_system: bool,
    pub disk_path: Seq<char>,
}

impl View for Nav {
    type V = NavV;

    open spec fn view(&self) -> NavV {
        NavV {
            tab: self.tab,
            ram_scroll: self.ram_scroll,
            region_scroll: self.region_scroll,
            cpu_scroll: self.cpu_scroll,
            disk_cursor: self.disk_cursor,
            disk_file_cursor: self.disk_file_cursor,
            net_scroll: self.net_scroll,
            activity_scroll: self.activity_scroll,
            process_scroll: self.process_scroll,
            bt_scroll: self.bt_scroll,
            usb_scroll: self.usb_scroll,
            audio_scroll: self.audio_scroll,
            service_scroll: self.service_scroll,
            thermal_scroll: self.thermal_scroll,
            disk_mode: self.disk_mode,
            disk_sort: self.disk_sort,
            disk_filter_system: self.disk_filter_system,
            disk_path: self.disk_path@,
        }
    }
}

impl Nav {
    /// The state the interface starts in: first tab, every list at its top,
    /// the disk tab on its partitions, listings by size, largest first, with
    /// system entries hidden.
    pub fn new() -> (r: Nav)
        ensures
            r.wf(),
            r@ == start_state(),
    {
        Nav {
            tab: 0,
            ram_scroll: 0,
            region_scroll: 0,
            cpu_scroll: 0,
            disk_cursor: 0,
            disk_file_cursor: 0,
            net_scroll: 0,
            activity_scroll: 0,
            process_scroll: 0,
            bt_scroll: 0,
            usb_scroll: 0,
            audio_scroll: 0,
            service_scroll: 0,
            thermal_scroll: 0,
            disk_mode: DiskMode::Partitions,
            disk_sort: SortMode::SizeDsc,
            disk_filter_system: true,
            disk_path: String::new(),
        }
    }

    /// The selected tab is one of the tabs.
    pub open spec fn wf(&self) -> bool {
        self.tab < TAB_COUNT
    }
}

/// The state the interface starts in.
pub open spec fn start_state() -> NavV {
    NavV {
        tab: 0,
        ram_scroll: 0,
        region_scroll: 0,
        cpu_scroll: 0,
        disk_cursor: 0,
        disk_file_cursor: 0,
        net_scroll: 0,
        activity_scroll: 0,
        process_scroll: 0,
        bt_scroll: 0,
        usb_scroll: 0,
        audio_scroll: 0,
        service_scroll: 0,
        thermal_scroll: 0,
        disk_mode: DiskMode::Partitions,
        disk_sort: SortMode::SizeDsc,
        disk_filter_system: true,
        disk_path: seq![],
    }
}

/// The tab after `t`, wrapping round to the first.
pub open spec fn next_tab(t: usize) -> usize {
    ((t + 1) % (TAB_COUNT as int)) as usize
}

/// The tab before `t`, wrapping round to the last.
pub open spec fn prev_tab(t: usize) -> usize {
    if t == 0 { (TAB_COUNT - 1) as usize } else { (t - 1) as usize }
}

/// The tab that a character key selects directly: the digits `1`..`9` the
/// first nine tabs, `0` the tenth, and one letter (either case) each of the
/// others.
pub open spec fn shortcut_tab(ch: char) -> Option<usize> {
    if '1' <= ch && ch <= '9' {
        Some((ch as int - '1' as int) as usize)
    } else if ch == '0' {
        Some(9)
    } else if ch == 'p' || ch == 'P' {
        Some(10)
    } else if ch == 'b' || ch == 'B' {
        Some(11)
    } else if ch == 'u' || ch == 'U' {
        Some(12)
    } else if ch == 'a' || ch == 'A' {
        Some(13)
    } else if ch == 'x' || ch == 'X' {
        Some(14)
    } else if ch == 'l' || ch == 'L' {
        Some(15)
    } else if ch == 'w' || ch == 'W' {
        Some(16)
    } else if ch == 't' || ch == 'T' {
        Some(17)
    } else {
        None
    }
}

/// `x + k`, stopping at the largest `usize`.
pub open spec fn sat_add(x: usize, k: usize) -> usize {
    if x + k > usize::MAX { usize::MAX } else { (x + k) as usize }
}

/// `x - k`, stopping at zero.
pub open spec fn sat_sub(x: usize, k: usize) -> usize {
    if x < k { 0 } else { (x - k) as usize }
}

/// The index of the last entry of a list of `len` entries (zero for an
/// empty list).
pub open spec fn last_index(len: usize) -> usize {
    sat_sub(len, 1)
}

/// A scroll position moved `k` lines down or up.
pub open spec fn shift(x: usize, down: bool, k: usize) -> usize {
    if down { sat_add(x, k) } else { sat_sub(x, k) }
}

/// A cursor in a list of `len` entries moved `k` lines down or up; moving
/// down stops at the last entry.
pub open spec fn shift_in(x: usize, down: bool, k: usize, len: usize) -> usize {
    if down {
        if sat_add(x, k) < last_index(len) { sat_add(x, k) } else { last_index(len) }
    } else {
        sat_sub(x, k)
    }
}

/// The scroll position or cursor of the selected tab moved by a line (or by
/// a page when `page`): a page is ten lines on the memory, CPU and network
/// tabs and on the partition list, twenty on the long lists; the Bluetooth,
/// USB, audio and thermal tabs move by lines only; tabs without a list do
/// not move.
pub open spec fn scroll(n: NavV, down: bool, page: bool, c: ListCounts, ndisks: usize, nfiles: usize) -> NavV {
    let short: usize = if page { 10 } else { 1 };
    let long: usize = if page { 20 } else { 1 };
    if n.tab == 0 {
        NavV { ram_scroll: shift(n.ram_scroll, down, short), ..n }
    } else if n.tab == 1 || n.tab == 2 {
        NavV { region_scroll: shift_in(n.region_scroll, down, long, c.regions), ..n }
    } else if n.tab == 3 {
        NavV { cpu_scroll: shift(n.cpu_scroll, down, short), ..n }
    } else if n.tab == 4 {
        if n.disk_mode == DiskMode::Partitions {
            NavV { disk_cursor: shift_in(n.disk_cursor, down, short, ndisks), ..n }
        } else {
            NavV { disk_file_cursor: shift_in(n.disk_file_cursor, down, long, nfiles), ..n }
        }
    } else if n.tab == 5 {
        NavV { net_scroll: shift(n.net_scroll, down, short), ..n }
    } else if n.tab == 9 {
        NavV { activity_scroll: shift_in(n.activity_scroll, down, long, c.connections), ..n }
    } else if n.tab == 10 {
        NavV { process_scroll: shift_in(n.process_scroll, down, long, c.processes), ..n }
    } else if n.tab == 11 && !page {
        NavV { bt_scroll: shift(n.bt_scroll, down, 1), ..n }
    } else if n.tab == 12 && !page {
        NavV { usb_scroll: shift(n.usb_scroll, down, 1), ..n }
    } else if n.tab == 13 && !page {
        NavV { audio_scroll: shift(n.audio_scroll, down, 1), ..n }
    } else if n.tab == 15 {
        NavV { service_scroll: shift_in(n.service_scroll, down, long, c.services), ..n }
    } else if n.tab == 17 && !page {
        NavV { thermal_scroll: shift(n.thermal_scroll, down, 1), ..n }
    } else {
        n
    }
}

fn shift_exec(x: usize, down: bool, k: usize) -> (r: usize)
    ensures
        r == shift(x, down, k),
{
    if down { x.saturating_add(k) } else { x.saturating_sub(k) }
}

fn shift_in_exec(x: usize, down: bool, k: usize, len: usize) -> (r: usize)
    ensures
        r == shift_in(x, down, k, len),
{
    if down {
        let a = x.saturating_add(k);
        let last = len.saturating_sub(1);
        if a < last { a } else { last }
    } else {
        x.saturating_sub(k)
    }
}

fn scroll_exec(nav: &mut Nav, down: bool, page: bool, c: ListCounts, ndisks: usize, nfiles: usize)
    ensures
        final(nav)@ == scroll(old(nav)@, down, page, c, ndisks, nfiles),
{
    let short: usize = if page { 10 } else { 1 };
    let long: usize = if page { 20 } else { 1 };
    let t = nav.tab;
    if t == 0 {
        nav.ram_scroll = shift_exec(nav.ram_scroll, down, short);
    } else if t == 1 || t == 2 {
        nav.region_scroll = shift_in_exec(nav.region_scroll, down, long, c.regions);
    } else if t == 3 {
        nav.cpu_scroll = shift_exec(nav.cpu_scroll, down, short);
    } else if t == 4 {
        if nav.disk_mode == DiskMode::Partitions {
            nav.disk_cursor = shift_in_exec(nav.disk_cursor, down, short, ndisks);
        } else {
            nav.disk_file_cursor = shift_in_exec(nav.disk_file_cursor, down, long, nfiles);
        }
    } else if t == 5 {
        nav.net_scroll = shift_exec(nav.net_scroll, down, short);
    } else if t == 9 {
        nav.activity_scroll = shift_in_exec(nav.activity_scroll, down, long, c.connections);
    } else if t == 10 {
        nav.process_scroll = shift_in_exec(nav.process_scroll, down, long, c.processes);
    } else if t == 11 && !page {
        nav.bt_scroll = shift_exec(nav.bt_scroll, down, 1);
    } else if t == 12 && !page {
        nav.usb_scroll = shift_exec(nav.usb_scroll, down, 1);
    } else if t == 13 && !page {
        nav.audio_scroll = shift_exec(nav.audio_scroll, down, 1);
    } else if t == 15 {
        nav.service_scroll = shift_in_exec(nav.service_scroll, down, long, c.services);
    } else if t == 17 && !page {
        nav.thermal_scroll = shift_exec(nav.thermal_scroll, down, 1);
    }
}

/// Name for the text of the parent directory of a path, as
/// `std::path::Path::parent` gives it, or the empty text where it gives none.
pub uninterp spec fn parent_path(p: Seq<char>) -> Seq<char>;

/// Calls `std::path::Path::parent` on `p` and returns the parent as text, or
/// the empty text where there is none. Claims that the result is
/// [`parent_path`] of `p`, and, as the documentation of `Path::parent` says,
/// that the empty path has no parent.
#[verifier::external_body]
fn parent_of(p: &str) -> (r: String)
    ensures
        r@ == parent_path(p@),
        p@.len() == 0 ==> r@.len() == 0,
{
    match std::path::Path::new(p).parent() {
        Some(q) => q.to_string_lossy().to_string(),
        None => String::new(),
    }
}

/// The length of a text in UTF-8 bytes, as `str::len` gives it.
pub open spec fn byte_len(s: Seq<char>) -> usize {
    encode_utf8(s).len() as usize
}

/// The file browser is showing: the disk tab in its file view.
pub open spec fn in_files(n: NavV) -> bool {
    n.tab == 4 && n.disk_mode == DiskMode::Files
}

/// Going up from the current directory of the file browser to `parent`: to
/// it while it is not empty and no shorter (in bytes) than the mount point of
/// the selected volume (one byte where no volume is selected), and back to the
/// partition list otherwise.
pub open spec fn up_to(n: NavV, parent: Seq<char>, disks: Seq<DiskInfo>) -> (NavV, KeyOutcome) {
    let min_len: usize = if n.disk_cursor < disks.len() {
        byte_len(disks[n.disk_cursor as int].mount_point@)
    } else {
        1
    };
    if parent.len() > 0 && byte_len(parent) >= min_len {
        (NavV { disk_path: parent, disk_file_cursor: 0, ..n }, KeyOutcome::Rescan)
    } else {
        (NavV { disk_mode: DiskMode::Partitions, ..n }, KeyOutcome::Stay)
    }
}

/// Going up a directory in the file browser: towards the parent of the
/// current path (see [`up_to`]).
pub open spec fn go_up(n: NavV, disks: Seq<DiskInfo>) -> (NavV, KeyOutcome) {
    up_to(n, parent_path(n.disk_path), disks)
}

/// Opening the selected entry of the file browser: a directory becomes the
/// current path; anything else leaves the state as it is.
pub open spec fn open_entry(n: NavV, files: Seq<FileEntry>) -> (NavV, KeyOutcome) {
    if n.disk_file_cursor < files.len() && files[n.disk_file_cursor as int].is_dir {
        (NavV { disk_path: files[n.disk_file_cursor as int].path@, disk_file_cursor: 0, ..n }, KeyOutcome::Rescan)
    } else {
        (n, KeyOutcome::Stay)
    }
}

/// Enter: on the partition list, browse the selected volume from its mount
/// point; in the file browser, open the selected entry; elsewhere nothing.
pub open spec fn enter(n: NavV, disks: Seq<DiskInfo>, files: Seq<FileEntry>) -> (NavV, KeyOutcome) {
    if n.tab != 4 {
        (n, KeyOutcome::Stay)
    } else if n.disk_mode == DiskMode::Partitions {
        if n.disk_cursor < disks.len() {
            (NavV {
                disk_path: disks[n.disk_cursor as int].mount_point@,
                disk_file_cursor: 0,
                disk_mode: DiskMode::Files,
                ..n
            }, KeyOutcome::Rescan)
        } else {
            (n, KeyOutcome::Stay)
        }
    } else {
        open_entry(n, files)
    }
}

/// The order after `s` in the cycle size (largest first), size (smallest
/// first), name (A to Z), name (Z to A).
pub open spec fn next_sort(s: SortMode) -> SortMode {
    match s {
        SortMode::SizeDsc => SortMode::SizeAsc,
        SortMode::SizeAsc => SortMode::NameAsc,
        SortMode::NameAsc => SortMode::NameDsc,
        SortMode::NameDsc => SortMode::SizeDsc,
    }
}

/// What a character key does.
pub open spec fn char_step(n: NavV, ch: char, c: ListCounts, disks: Seq<DiskInfo>, files: Seq<FileEntry>) -> (NavV, KeyOutcome) {
    if ch == 'q' {
        (n, KeyOutcome::Quit)
    } else if shortcut_tab(ch) is Some {
        (NavV { tab: shortcut_tab(ch)->0, ..n }, KeyOutcome::Stay)
    } else if ch == 's' {
        if in_files(n) {
            (NavV { disk_sort: next_sort(n.disk_sort), disk_file_cursor: 0, ..n }, KeyOutcome::Rescan)
        } else {
            (n, KeyOutcome::Stay)
        }
    } else if ch == 'f' || ch == 'F' {
        if in_files(n) {
            (NavV { disk_filter_system: !n.disk_filter_system, disk_file_cursor: 0, ..n }, KeyOutcome::Rescan)
        } else {
            (n, KeyOutcome::Stay)
        }
    } else if ch == 'j' {
        (scroll(n, true, false, c, disks.len() as usize, files.len() as usize), KeyOutcome::Stay)
    } else if ch == 'k' {
        (scroll(n, false, false, c, disks.len() as usize, files.len() as usize), KeyOutcome::Stay)
    } else {
        (n, KeyOutcome::Stay)
    }
}

/// What a key press does to the state, and what the caller has to do next.
pub open spec fn key_step(n: NavV, k: Key, c: ListCounts, disks: Seq<DiskInfo>, files: Seq<FileEntry>) -> (NavV, KeyOutcome) {
    let nd = disks.len() as usize;
    let nf = files.len() as usize;
    match k {
        Key::Char(ch) => char_step(n, ch, c, disks, files),
        Key::Esc => if in_files(n) { go_up(n, disks) } else { (n, KeyOutcome::Quit) },
        Key::Tab => (NavV { tab: next_tab(n.tab), ..n }, KeyOutcome::Stay),
        Key::BackTab => (NavV { tab: prev_tab(n.tab), ..n }, KeyOutcome::Stay),
        Key::Enter => enter(n, disks, files),
        Key::Right => if in_files(n) { open_entry(n, files) } else { (NavV { tab: next_tab(n.tab), ..n }, KeyOutcome::Stay) },
        Key::Left => if in_files(n) { go_up(n, disks) } else { (NavV { tab: prev_tab(n.tab), ..n }, KeyOutcome::Stay) },
        Key::Down => (scroll(n, true, false, c, nd, nf), KeyOutcome::Stay),
        Key::Up => (scroll(n, false, false, c, nd, nf), KeyOutcome::Stay),
        Key::PageDown => (scroll(n, true, true, c, nd, nf), KeyOutcome::Stay),
        Key::PageUp => (scroll(n, false, true, c, nd, nf), KeyOutcome::Stay),
        Key::Other => (n, KeyOutcome::Stay),
    }
}

fn shortcut_tab_exec(ch: char) -> (r: Option<usize>)
    ensures
        r == shortcut_tab(ch),
{
    match ch {
        '1' => Some(0),
        '2' => Some(1),
        '3' => Some(2),
        '4' => Some(3),
        '5' => Some(4),
        '6' => Some(5),
        '7' => Some(6),
        '8' => Some(7),
        '9' => Some(8),
        '0' => Some(9),
        'p' | 'P' => Some(10),
        'b' | 'B' => Some(11),
        'u' | 'U' => Some(12),
        'a' | 'A' => Some(13),
        'x' | 'X' => Some(14),
        'l' | 'L' => Some(15),
        'w' | 'W' => Some(16),
        't' | 'T' => Some(17),
        _ => None,
    }
}

/// Goes up from the current directory of the file browser to `parent`, the
/// parent of its path, or back to the partition list (see [`up_to`]).
pub fn leave_dir(nav: &mut Nav, parent: String, disks: &Vec<DiskInfo>) -> (r: KeyOutcome)
    ensures
        (final(nav)@, r) == up_to(old(nav)@, parent@, disks@),
{
    let min_len: usize = if nav.disk_cursor < disks.len() {
        disks[nav.disk_cursor].mount_point.as_str().len()
    } else {
        1
    };
    if !parent.as_str().is_empty() && parent.as_str().len() >= min_len {
        nav.disk_path = parent;
        nav.disk_file_cursor = 0;
        KeyOutcome::Rescan
    } else {
        nav.disk_mode = DiskMode::Partitions;
        KeyOutcome::Stay
    }
}

fn go_up_exec(nav: &mut Nav, disks: &Vec<DiskInfo>) -> (r: KeyOutcome)
    ensures
        (final(nav)@, r) == go_up(old(nav)@, disks@),
{
    let parent = parent_of(nav.disk_path.as_str());
    leave_dir(nav, parent, disks)
}

fn open_entry_exec(nav: &mut Nav, files: &Vec<FileEntry>) -> (r: KeyOutcome)
    ensures
        (final(nav)@, r) == open_entry(old(nav)@, files@),
{
    if nav.disk_file_cursor < files.len() && files[nav.disk_file_cursor].is_dir {
        nav.disk_path = files[nav.disk_file_cursor].path.clone();
        nav.disk_file_cursor = 0;
        KeyOutcome::Rescan
    } else {
        KeyOutcome::Stay
    }
}

fn enter_exec(nav: &mut Nav, disks: &Vec<DiskInfo>, files: &Vec<FileEntry>) -> (r: KeyOutcome)
    ensures
        (final(nav)@, r) == enter(old(nav)@, disks@, files@),
{
    if nav.tab != 4 {
        KeyOutcome::Stay
    } else if nav.disk_mode == DiskMode::Partitions {
        if nav.disk_cursor < disks.len() {
            nav.disk_path = disks[nav.disk_cursor].mount_point.clone();
            nav.disk_file_cursor = 0;
            nav.disk_mode = DiskMode::Files;
            KeyOutcome::Rescan
        } else {
            KeyOutcome::Stay
        }
    } else {
        open_entry_exec(nav, files)
    }
}

fn next_sort_exec(s: SortMode) -> (r: SortMode)
    ensures
        r == next_sort(s),
{
    match s {
        SortMode::SizeDsc => SortMode::SizeAsc,
        SortMode::SizeAsc => SortMode::NameAsc,
        SortMode::NameAsc => SortMode::NameDsc,
        SortMode::NameDsc => SortMode::SizeDsc,
    }
}

/// Applies a key press to the navigation state. `counts` holds the lengths
/// of the region, connection, process and service lists, `disks` the
/// volumes and `files` the current directory listing. On
/// [`KeyOutcome::Rescan`] the caller lists `disk_path` again; on
/// [`KeyOutcome::Quit`] it leaves.
pub fn handle_key(nav: &mut Nav, code: Key, counts: ListCounts, disks: &Vec<DiskInfo>, files: &Vec<FileEntry>) -> (r: KeyOutcome)
    requires
        old(nav).wf(),
    ensures
        (final(nav)@, r) == key_step(old(nav)@, code, counts, disks@, files@),
        final(nav).wf(),
{
    let in_files = nav.tab == 4 && nav.disk_mode == DiskMode::Files;
    let nd = disks.len();
    let nf = files.len();
    match code {
        Key::Char(ch) => {
            if ch == 'q' {
                return KeyOutcome::Quit;
            }
            match shortcut_tab_exec(ch) {
                Some(t) => {
                    nav.tab = t;
                    return KeyOutcome::Stay;
                },
                None => {},
            }
            if ch == 's' {
                if in_files {
                    nav.disk_sort = next_sort_exec(nav.disk_sort);
                    nav.disk_file_cursor = 0;
                    KeyOutcome::Rescan
                } else {
                    KeyOutcome::Stay
                }
            } else if ch == 'f' || ch == 'F' {
                if in_files {
                    nav.disk_filter_system = !nav.disk_filter_system;
                    nav.disk_file_cursor = 0;
                    KeyOutcome::Rescan
                } else {
                    KeyOutcome::Stay
                }
            } else if ch == 'j' {
                scroll_exec(nav, true, false, counts, nd, nf);
                KeyOutcome::Stay
            } else if ch == 'k' {
                scroll_exec(nav, false, false, counts, nd, nf);
                KeyOutcome::Stay
            } else {
                KeyOutcome::Stay
            }
        },
        Key::Esc => {
            if in_files {
                go_up_exec(nav, disks)
            } else {
                KeyOutcome::Quit
            }
        },
        Key::Tab => {
            nav.tab = (nav.tab + 1) % TAB_COUNT;
            KeyOutcome::Stay
        },
        Key::BackTab => {
            nav.tab = if nav.tab == 0 { TAB_COUNT - 1 } else { nav.tab - 1 };
            KeyOutcome::Stay
        },
        Key::Enter => enter_exec(nav, disks, files),
        Key::Right => {
            if in_files {
                open_entry_exec(nav, files)
            } else {
                nav.tab = (nav.tab + 1) % TAB_COUNT;
                KeyOutcome::Stay
            }
        },
        Key::Left => {
            if in_files {
                go_up_exec(nav, disks)
            } else {
                nav.tab = if nav.tab == 0 { TAB_COUNT - 1 } else { nav.tab - 1 };
                KeyOutcome::Stay
            }
        },
        Key::Down => {
            scroll_exec(nav, true, false, counts, nd, nf);
            KeyOutcome::Stay
        },
        Key::Up => {
            scroll_exec(nav, false, false, counts, nd, nf);
            KeyOutcome::Stay
        },
        Key::PageDown => {
            scroll_exec(nav, true, true, counts, nd, nf);
            KeyOutcome::Stay
        },
        Key::PageUp => {
            scroll_exec(nav, false, true, counts, nd, nf);
            KeyOutcome::Stay
        },
        Key::Other => KeyOutcome::Stay,
    }
}

/// Every clamped cursor stands on an entry of its list (or at zero when the
/// list is empty).
pub open spec fn cursors_in(n: NavV, c: ListCounts, ndisks: usize, nfiles: usize) -> bool {
    &&& n.region_scroll <= last_index(c.regions)
    &&& n.activity_scroll <= last_index(c.connections)
    &&& n.process_scroll <= last_index(c.processes)
    &&& n.service_scroll <= last_index(c.services)
    &&& n.disk_cursor <= last_index(ndisks)
    &&& n.disk_file_cursor <= last_index(nfiles)
}

/// There is room to move the selected tab's position a line (or a page) down
/// without stopping at the end of its list or of `usize`.
pub open spec fn room_below(n: NavV, page: bool, c: ListCounts, ndisks: usize, nfiles: usize) -> bool {
    let short: int = if page { 10 } else { 1 };
    let long: int = if page { 20 } else { 1 };
    if n.tab == 0 {
        n.ram_scroll + short <= usize::MAX
    } else if n.tab == 1 || n.tab == 2 {
        n.region_scroll + long <= last_index(c.regions)
    } else if n.tab == 3 {
        n.cpu_scroll + short <= usize::MAX
    } else if n.tab == 4 {
        if n.disk_mode == DiskMode::Partitions {
            n.disk_cursor + short <= last_index(ndisks)
        } else {
            n.disk_file_cursor + long <= last_index(nfiles)
        }
    } else if n.tab == 5 {
        n.net_scroll + short <= usize::MAX
    } else if n.tab == 9 {
        n.activity_scroll + long <= last_index(c.connections)
    } else if n.tab == 10 {
        n.process_scroll + long <= last_index(c.processes)
    } else if n.tab == 11 {
        n.bt_scroll + 1 <= usize::MAX
    } else if n.tab == 12 {
        n.usb_scroll + 1 <= usize::MAX
    } else if n.tab == 13 {
        n.audio_scroll + 1 <= usize::MAX
    } else if n.tab == 15 {
        n.service_scroll + long <= last_index(c.services)
    } else if n.tab == 17 {
        n.thermal_scroll + 1 <= usize::MAX
    } else {
        true
    }
}

/// Tab followed by Shift-Tab, or Shift-Tab followed by Tab, comes back to the
/// same state.
pub proof fn lemma_tab_then_back(n: NavV, c: ListCounts, disks: Seq<DiskInfo>, files: Seq<FileEntry>)
    requires
        n.tab < TAB_COUNT,
    ensures
        key_step(key_step(n, Key::Tab, c, disks, files).0, Key::BackTab, c, disks, files) == (n, KeyOutcome::Stay),
        key_step(key_step(n, Key::BackTab, c, disks, files).0, Key::Tab, c, disks, files) == (n, KeyOutcome::Stay),
{
}

/// Outside the file browser the arrow keys switch tabs as Tab and Shift-Tab
/// do; inside it they open the selected entry and go up a directory.
pub proof fn lemma_arrows(n: NavV, c: ListCounts, disks: Seq<DiskInfo>, files: Seq<FileEntry>)
    ensures
        !in_files(n) ==> key_step(n, Key::Right, c, disks, files) == key_step(n, Key::Tab, c, disks, files),
        !in_files(n) ==> key_step(n, Key::Left, c, disks, files) == key_step(n, Key::BackTab, c, disks, files),
        in_files(n) ==> key_step(n, Key::Right, c, disks, files) == open_entry(n, files),
        in_files(n) ==> key_step(n, Key::Left, c, disks, files) == go_up(n, disks),
        in_files(n) ==> key_step(n, Key::Esc, c, disks, files) == go_up(n, disks),
{
}

/// Every key leaves the selected tab among the tabs.
pub proof fn lemma_tab_stays_in_range(n: NavV, k: Key, c: ListCounts, disks: Seq<DiskInfo>, files: Seq<FileEntry>)
    requires
        n.tab < TAB_COUNT,
    ensures
        key_step(n, k, c, disks, files).0.tab < TAB_COUNT,
{
}

/// A key asks to quit exactly when it is `q`, or Esc outside the file
/// browser; quitting changes nothing.
pub proof fn lemma_quit_keys(n: NavV, k: Key, c: ListCounts, disks: Seq<DiskInfo>, files: Seq<FileEntry>)
    ensures
        key_step(n, k, c, disks, files).1 == KeyOutcome::Quit <==> (k == Key::Char('q') || (k == Key::Esc
            && !in_files(n))),
        key_step(n, k, c, disks, files).1 == KeyOutcome::Quit ==> key_step(n, k, c, disks, files).0 == n,
{
}

/// A new listing is asked for only with the cursor of the file list back at
/// its first entry, so that the cursor stands on an entry of any listing.
pub proof fn lemma_rescan_resets_cursor(n: NavV, k: Key, c: ListCounts, disks: Seq<DiskInfo>, files: Seq<FileEntry>)
    ensures
        key_step(n, k, c, disks, files).1 == KeyOutcome::Rescan ==> key_step(n, k, c, disks, files).0.disk_file_cursor
            == 0,
{
}

/// Pressing `s` four times in the file browser comes back to the same order
/// (with the cursor at the top).
pub proof fn lemma_sort_cycle(n: NavV, c: ListCounts, disks: Seq<DiskInfo>, files: Seq<FileEntry>)
    requires
        in_files(n),
    ensures
        ({
            let s = Key::Char('s');
            let n1 = key_step(n, s, c, disks, files).0;
            let n2 = key_step(n1, s, c, disks, files).0;
            let n3 = key_step(n2, s, c, disks, files).0;
            let n4 = key_step(n3, s, c, disks, files).0;
            &&& n1.disk_sort != n.disk_sort
            &&& n2.disk_sort != n.disk_sort
            &&& n3.disk_sort != n.disk_sort
            &&& n4 == NavV { disk_file_cursor: 0, ..n }
        }),
{
}

/// Pressing `f` twice in the file browser gives back the same filter (with
/// the cursor at the top).
pub proof fn lemma_filter_twice(n: NavV, c: ListCounts, disks: Seq<DiskInfo>, files: Seq<FileEntry>)
    requires
        in_files(n),
    ensures
        ({
            let f = Key::Char('f');
            let n1 = key_step(n, f, c, disks, files).0;
            let n2 = key_step(n1, f, c, disks, files).0;
            &&& n1.disk_filter_system == !n.disk_filter_system
            &&& n2 == NavV { disk_file_cursor: 0, ..n }
        }),
{
}

/// No key moves a clamped cursor past the last entry of its list.
pub proof fn lemma_cursors_stay_in_lists(n: NavV, k: Key, c: ListCounts, disks: Seq<DiskInfo>, files: Seq<FileEntry>)
    requires
        cursors_in(n, c, disks.len() as usize, files.len() as usize),
    ensures
        cursors_in(key_step(n, k, c, disks, files).0, c, disks.len() as usize, files.len() as usize),
{
}

/// Where there is room below, a line down and a line up (or a page down and
/// a page up) come back to the same state.
pub proof fn lemma_down_then_up(n: NavV, page: bool, c: ListCounts, disks: Seq<DiskInfo>, files: Seq<FileEntry>)
    requires
        room_below(n, page, c, disks.len() as usize, files.len() as usize),
    ensures
        ({
            let down = if page { Key::PageDown } else { Key::Down };
            let up = if page { Key::PageUp } else { Key::Up };
            key_step(key_step(n, down, c, disks, files).0, up, c, disks, files) == (n, KeyOutcome::Stay)
        }),
{
    lemma_scroll_back(n, page, c, disks.len() as usize, files.len() as usize);
}

proof fn lemma_shift_back(x: usize, k: usize)
    requires
        x + k <= usize::MAX,
    ensures
        shift(shift(x, true, k), false, k) == x,
{
}

proof fn lemma_shift_in_back(x: usize, k: usize, len: usize)
    requires
        x + k <= last_index(len),
    ensures
        shift_in(shift_in(x, true, k, len), false, k, len) == x,
{
}

proof fn lemma_scroll_back(n: NavV, page: bool, c: ListCounts, nd: usize, nf: usize)
    requires
        room_below(n, page, c, nd, nf),
    ensures
        scroll(scroll(n, true, page, c, nd, nf), false, page, c, nd, nf) == n,
{
    let short: usize = if page { 10 } else { 1 };
    let long: usize = if page { 20 } else { 1 };
    if n.tab == 0 {
        lemma_shift_back(n.ram_scroll, short);
    } else if n.tab == 1 || n.tab == 2 {
        lemma_shift_in_back(n.region_scroll, long, c.regions);
    } else if n.tab == 3 {
        lemma_shift_back(n.cpu_scroll, short);
    } else if n.tab == 4 {
        if n.disk_mode == DiskMode::Partitions {
            lemma_shift_in_back(n.disk_cursor, short, nd);
        } else {
            lemma_shift_in_back(n.disk_file_cursor, long, nf);
        }
    } else if n.tab == 5 {
        lemma_shift_back(n.net_scroll, short);
    } else if n.tab == 9 {
        lemma_shift_in_back(n.activity_scroll, long, c.connections);
    } else if n.tab == 10 {
        lemma_shift_in_back(n.process_scroll, long, c.processes);
    } else if n.tab == 11 {
        lemma_shift_back(n.bt_scroll, 1);
    } else if n.tab == 12 {
        lemma_shift_back(n.usb_scroll, 1);
    } else if n.tab == 13 {
        lemma_shift_back(n.audio_scroll, 1);
    } else if n.tab == 15 {
        lemma_shift_in_back(n.service_scroll, long, c.services);
    } else if n.tab == 17 {
        lemma_shift_back(n.thermal_scroll, 1);
    }
}

} // verus!
