use dotnet_pal::elf::ProgramHeader;
use dotnet_pal::linux_platform::{
    cache_level_size, cache_path, cache_size, cgroup_directory, cgroup_line, cgroup_version, count_ones, cpu_count, cpu_limit,
    build_id_in, cpu_limit_v1, cpu_limit_v2, cpu_list_highest, cpu_max, cpu_max_file, discover_cgroups, file_path, find_note, hierarchy_mount,
    list_contains, mask_count, mem_available, memory_limit, memory_limit_v1, memory_usage, memory_walk, message, module_base,
    mount_line, nth_field, parse_size, parse_u64, pages_bytes, physical_memory, probe_start, stat_field, swap_memory, swap_walk,
    tighter, traced, trim, unwind_search, is_placed, up, usage_files, CacheEntry, LineStep, Lines, LoadedImage, NoteSegment, Path, ProbeAnswer,
    LINE_BUFFER, PT_GNU_EH_FRAME, PT_LOAD,
};
use dotnet_pal::linux::{mapping_placement, mapping_span};
use dotnet_pal::port::Error;

fn lines(text: &str) -> Vec<Vec<u8>> {
    text.lines().map(|l| l.as_bytes().to_vec()).collect()
}

#[test]
fn trimming_and_decimal_prefixes() {
    assert_eq!(trim(b"  42 \n"), (2, 4));
    assert_eq!(trim(b" \t "), (3, 3));
    assert_eq!(parse_u64(b" 123kB"), Some((123, 4, 6)));
    assert_eq!(parse_u64(b"abc"), None);
    assert_eq!(parse_u64(b"18446744073709551615"), Some((u64::MAX, 20, 20)));
    assert_eq!(parse_u64(b"18446744073709551616"), None);
}

#[test]
fn sizes_take_their_suffix() {
    assert_eq!(parse_size(b"512"), Some(512));
    assert_eq!(parse_size(b"8k"), Some(8192));
    assert_eq!(parse_size(b"2M\n"), Some(2 << 20));
    assert_eq!(parse_size(b"1G"), Some(1 << 30));
    assert_eq!(parse_size(b"32x"), Some(32));
    assert_eq!(parse_size(b"max"), None);
    assert_eq!(parse_size(b"17179869184G"), None);
}

#[test]
fn fields_split_on_spaces() {
    let line = b"a  bb ccc";
    assert_eq!(nth_field(line, 0, 0), Some((0, 1)));
    assert_eq!(nth_field(line, 0, 1), Some((3, 5)));
    assert_eq!(nth_field(line, 0, 2), Some((6, 9)));
    assert_eq!(nth_field(line, 0, 3), None);
    assert!(list_contains(b"rw,memory,cpu", b"memory"));
    assert!(!list_contains(b"rw,memoryx", b"memory"));
    assert!(list_contains(b"", b""));
}

const MOUNTINFO: &str = "22 1 0:21 / /proc rw - proc proc rw\n\
30 25 0:26 / /sys/fs/cgroup/memory rw,nosuid - cgroup cgroup rw,memory\n\
31 25 0:27 /docker /sys/fs/cgroup rw - cgroup2 cgroup2 rw";

#[test]
fn mountinfo_names_the_hierarchy() {
    let text = lines(MOUNTINFO);
    assert_eq!(mount_line(1, b"memory", &text[0]), None);
    let found = mount_line(1, b"memory", &text[1]).unwrap();
    assert_eq!(&text[1][found.0 .0..found.0 .1], b"/");
    assert_eq!(&text[1][found.1 .0..found.1 .1], b"/sys/fs/cgroup/memory");
    let unified = mount_line(2, b"", &text[2]).unwrap();
    assert_eq!(&text[2][unified.0 .0..unified.0 .1], b"/docker");
    let mut mount = Path::new();
    let mut root = Path::new();
    assert!(hierarchy_mount(2, b"", &text, &mut mount, &mut root));
    assert_eq!(mount.as_slice().to_vec(), b"/sys/fs/cgroup".to_vec());
    assert_eq!(root.as_slice().to_vec(), b"/docker".to_vec());
}

#[test]
fn cgroup_lines_and_directories() {
    assert_eq!(cgroup_line(2, b"", b"0::/docker/abc"), Some((3, 14)));
    assert_eq!(cgroup_line(1, b"memory", b"4:memory:/user.slice"), Some((9, 20)));
    assert_eq!(cgroup_line(1, b"memory", b"4:cpu,cpuacct:/"), None);
    assert_eq!(cgroup_line(1, b"memory", b"no colons"), None);
    let mountinfo = lines(MOUNTINFO);
    let cgroup = lines("0::/docker/abc");
    let mut out = Path::new();
    let mut mount = Path::new();
    assert!(cgroup_directory(2, b"", &mountinfo, &cgroup, &mut out, &mut mount));
    assert_eq!(out.as_slice().to_vec(), b"/sys/fs/cgroup/abc".to_vec());
    assert_eq!(mount.as_slice().to_vec(), b"/sys/fs/cgroup".to_vec());
    let groups = discover_cgroups(0, &mountinfo, &cgroup);
    assert_eq!(groups.memory.length, 0);
    assert!(memory_walk(&groups).is_none());
    assert_eq!(cgroup_version(None), 0);
    assert_eq!(cgroup_version(Some(0x63677270)), 2);
    assert_eq!(cgroup_version(Some(0x27e0eb)), 1);
}

#[test]
fn paths_are_bounded_and_terminated() {
    let mut p = Path::new();
    assert!(p.set(b"/sys/fs/cgroup"));
    assert!(p.push(b"/memory.max"));
    assert_eq!(p.c_str().to_vec(), b"/sys/fs/cgroup/memory.max\0".to_vec());
    let long = vec![b'a'; 512];
    assert!(!p.set(&long));
    assert_eq!(p.as_slice().to_vec(), b"/sys/fs/cgroup/memory.max".to_vec());
    assert_eq!(file_path(b"/a", b"/b"), Some(b"/a/b\0".to_vec()));
    assert_eq!(cache_path(3, b"/size"), Some(b"/sys/devices/system/cpu/cpu0/cache/index3/size\0".to_vec()));
}

#[test]
fn the_memory_walk_keeps_the_tightest_limit() {
    let mut dir = Path::new();
    assert!(dir.set(b"/sys/fs/cgroup/a/b"));
    assert!(up(&mut dir, 14));
    assert_eq!(dir.as_slice().to_vec(), b"/sys/fs/cgroup/a".to_vec());
    assert!(up(&mut dir, 14));
    assert_eq!(dir.as_slice().to_vec(), b"/sys/fs/cgroup".to_vec());
    assert!(!up(&mut dir, 14));
    assert_eq!(tighter(Some(5), Some(3)), Some(3));
    assert_eq!(tighter(None, Some(7)), Some(7));
    assert_eq!(tighter(Some(5), None), Some(5));
    assert_eq!(memory_limit_v1(Some(1), Some(10), Some(20)), Some(10));
    assert_eq!(memory_limit_v1(None, Some(10), Some(20)), Some(20));
}

#[test]
fn memory_figures_combine_limits() {
    assert_eq!(memory_limit(None, Some(1), 8), 0);
    assert_eq!(memory_limit(Some(0x7FFF_FFFF_0000_0001), None, 8), 0);
    assert_eq!(memory_limit(Some(100), Some(50), 80), 50);
    assert_eq!(memory_limit(Some(100), Some(0), 80), 80);
    assert_eq!(physical_memory(0, 0, None, None, 0), None);
    assert_eq!(physical_memory(1000, 400, Some(100), None, 0), Some((400, 300)));
    assert_eq!(physical_memory(1000, 400, Some(500), None, 0), Some((400, 0)));
    assert_eq!(physical_memory(1000, 0, None, Some(2000), 0), Some((1000, 1000)));
    assert_eq!(physical_memory(1000, 0, None, None, 300), Some((1000, 300)));
    assert_eq!(swap_memory(10, 8, 0, None), (10, 8));
    assert_eq!(swap_memory(10, 8, 4, Some((20, 15))), (20, 5));
    assert_eq!(memory_usage(Some(10), Some(4)), Some(6));
    assert_eq!(memory_usage(Some(3), Some(4)), Some(0));
    assert_eq!(memory_usage(None, Some(4)), None);
    assert_eq!(pages_bytes(3, 4096), 12288);
    assert_eq!(pages_bytes(-1, 4096), 0);
    assert_eq!(usage_files(2), Some((b"/memory.current".to_vec(), b"inactive_file ".to_vec())));
    assert_eq!(usage_files(0), None);
}

#[test]
fn cpu_limits_round_up() {
    assert_eq!(cpu_limit(0, 100), None);
    assert_eq!(cpu_limit(50, 100), Some(1));
    assert_eq!(cpu_limit(150, 100), Some(2));
    assert_eq!(cpu_limit(200, 100), Some(2));
    assert_eq!(cpu_limit(u64::MAX, 1), Some(u32::MAX));
    assert_eq!(cpu_max_file(b"max 100000\n"), None);
    assert_eq!(cpu_max_file(b"150000 100000\n"), Some((150000, 100000)));
    assert_eq!(cpu_limit_v2(b"150000 100000\n"), Some(2));
    assert_eq!(cpu_limit_v1(Some(300), Some(100)), Some(3));
    assert_eq!(cpu_limit_v1(None, Some(100)), None);
}

#[test]
fn cpu_lists_name_the_highest_cpu() {
    assert_eq!(cpu_list_highest(b"0-3\n"), Some(3));
    assert_eq!(cpu_list_highest(b"0,2-5"), Some(5));
    assert_eq!(cpu_list_highest(b"7,2-x"), Some(7));
    assert_eq!(cpu_list_highest(b""), None);
    assert_eq!(cpu_max(Some(b"0-3\n"), 16), Some(4));
    assert_eq!(cpu_max(Some(b"junk"), 16), Some(16));
    assert_eq!(cpu_max(None, 0), None);
    assert_eq!(count_ones(0b1011), 3);
    assert_eq!(mask_count(&[u64::MAX, 1]), 65);
    assert_eq!(cpu_count(Some(4), 8, Some(2)), Some(2));
    assert_eq!(cpu_count(Some(0), 8, None), Some(8));
    assert_eq!(cpu_count(None, 0, None), None);
    assert_eq!(cpu_count(Some(4), 0, Some(0)), Some(1));
}

#[test]
fn status_files_answer_by_their_first_line() {
    let meminfo = lines("MemTotal: 100 kB\nMemAvailable:   64 kB\n");
    // The unit after the number is no size suffix: the figure is taken as it stands.
    assert_eq!(mem_available(&meminfo), Some(64));
    assert_eq!(mem_available(&lines("MemAvailable: 2k")), Some(2048));
    assert_eq!(mem_available(&lines("MemTotal: 1")), None);
    assert_eq!(traced(&lines("Name: x\nTracerPid:\t42")), Some(true));
    assert_eq!(traced(&lines("TracerPid:\t0")), Some(false));
    assert_eq!(traced(&lines("Name: x")), None);
    assert_eq!(stat_field(&lines("cache 5\ninactive_file 7"), b"inactive_file "), Some(7));
    assert_eq!(message(0, b"abc"), Vec::<u8>::new());
    assert_eq!(message(3, b"abcdef"), b"ab\0".to_vec());
    assert_eq!(message(10, b"abc"), b"abc\0".to_vec());
}

#[test]
fn caches_are_sized_from_the_library_or_sysfs() {
    assert_eq!(cache_size(&[0, 32768, -1, 0], &vec![]), Some(32768));
    assert_eq!(cache_size(&[0, 0, 0, 0], &vec![Some(b"32K\n".to_vec()), None, Some(b"1M".to_vec())]), Some(1 << 20));
    let entries = vec![
        CacheEntry { level: Some(b"1\n".to_vec()), kind: Some(b"Instruction\n".to_vec()), size: Some(b"64K\n".to_vec()) },
        CacheEntry { level: Some(b"1\n".to_vec()), kind: Some(b"Data\n".to_vec()), size: Some(b"32K\n".to_vec()) },
        CacheEntry { level: Some(b"2\n".to_vec()), kind: Some(b"Unified\n".to_vec()), size: Some(b"1M\n".to_vec()) },
    ];
    assert_eq!(cache_level_size(1, 0, &entries), Some(32768));
    assert_eq!(cache_level_size(2, 0, &entries), Some(1 << 20));
    assert_eq!(cache_level_size(1, 4096, &entries), Some(4096));
}

fn header(kind: u32, address: u64, size: u64) -> ProgramHeader {
    ProgramHeader { kind, flags: 0, offset: 0, virtual_address: address, physical_address: address, file_size: size, memory_size: size, alignment: 4 }
}

#[test]
fn unwind_tables_come_from_the_image_holding_the_address() {
    let images = vec![
        LoadedImage { base: 0x1000, headers: vec![header(PT_LOAD, 0, 0x100)] },
        LoadedImage {
            base: 0x10000,
            headers: vec![header(PT_LOAD, 0, 0x1000), header(PT_GNU_EH_FRAME, 0x800, 0x40), header(PT_GNU_EH_FRAME, 0x900, 0x20)],
        },
    ];
    let info = unwind_search(&images, 0x10010).unwrap();
    assert_eq!(info.base, 0x10000);
    assert_eq!(info.text_start, 0x10000);
    assert_eq!(info.text_length, 0x1000);
    assert_eq!(info.eh_frame_hdr, 0x10900);
    assert_eq!(info.eh_frame_hdr_length, 0x20);
    assert!(unwind_search(&images, 0x1010).is_none());
    assert!(unwind_search(&images, 0x20000).is_none());
    // An object whose segments would wrap around the address space holds nothing.
    let wrapping = vec![
        LoadedImage { base: usize::MAX - 0x10, headers: vec![header(PT_LOAD, 0, 0x100), header(PT_GNU_EH_FRAME, 0, 8)] },
        images[1].clone(),
    ];
    assert!(!is_placed(&wrapping[0]) && is_placed(&wrapping[1]));
    assert_eq!(unwind_search(&wrapping, usize::MAX - 0x8), None);
    assert_eq!(unwind_search(&wrapping, 0x10010).map(|i| i.base), Some(0x10000));
    assert_eq!(module_base(0x10000, &images[1].headers), Some(0x10000));
    assert_eq!(module_base(0, &vec![header(PT_GNU_EH_FRAME, 0, 1)]), None);
}

#[test]
fn build_id_notes_are_found_by_name_and_type() {
    let mut notes: Vec<u8> = Vec::new();
    // An ABI tag note first, then the build id.
    notes.extend_from_slice(&[4, 0, 0, 0, 16, 0, 0, 0, 1, 0, 0, 0]);
    notes.extend_from_slice(b"GNU\0");
    notes.extend_from_slice(&[0; 16]);
    notes.extend_from_slice(&[4, 0, 0, 0, 20, 0, 0, 0, 3, 0, 0, 0]);
    notes.extend_from_slice(b"GNU\0");
    notes.extend_from_slice(&[0xAB; 20]);
    assert_eq!(find_note(&notes, 4), Some((48, 20)));
    assert_eq!(find_note(&notes[..32], 4), None);
    assert_eq!(find_note(&[], 4), None);
}

#[test]
fn probes_walk_page_by_page() {
    assert!(probe_start(usize::MAX, 2, 4096).is_none());
    let mut probe = probe_start(0x1010, 0x2000, 0x1000).unwrap();
    assert_eq!(probe.next, 0x1000);
    assert_eq!(probe.last, 0x300F);
    assert_eq!(probe.step(ProbeAnswer::Readable), None);
    assert_eq!(probe.next, 0x2000);
    assert_eq!(probe.step(ProbeAnswer::Readable), None);
    assert_eq!(probe.step(ProbeAnswer::Readable), Some(Ok(true)));
    let mut other = probe_start(0x1000, 1, 0x1000).unwrap();
    assert_eq!(other.step(ProbeAnswer::Fault), Some(Ok(false)));
    assert_eq!(other.step(ProbeAnswer::Accepted), Some(Err(Error::Os)));
}

fn drain(reader: &mut Lines, text: &[u8], chunk: usize) -> Vec<Vec<u8>> {
    let mut out = Vec::new();
    let mut at = 0;
    loop {
        match reader.next() {
            LineStep::Line(l) => out.push(l),
            LineStep::End => return out,
            LineStep::Read => {
                let room = LINE_BUFFER - reader.filled;
                let take = chunk.min(room).min(text.len() - at);
                reader.supply(&text[at..at + take]);
                at += take;
            }
        }
    }
}

#[test]
fn the_line_reader_skips_oversized_lines() {
    let mut reader = Lines::new();
    let lines = drain(&mut reader, b"one\ntwo\nthree", 6);
    assert_eq!(lines, vec![b"one".to_vec(), b"two".to_vec(), b"three".to_vec()]);
    let long = vec![b'x'; 3000];
    let mut text = long.clone();
    text.extend_from_slice(b"\nshort\n");
    let mut reader = Lines::new();
    assert_eq!(drain(&mut reader, &text, 1000), vec![b"short".to_vec()]);
}

#[test]
fn swap_is_reported_for_the_unified_hierarchy_only() {
    let mountinfo = lines(MOUNTINFO);
    let cgroup = lines("0::/docker/abc");
    let groups = discover_cgroups(2, &mountinfo, &cgroup);
    assert_eq!(groups.memory.as_slice().to_vec(), b"/sys/fs/cgroup/abc".to_vec());
    let mut walk = swap_walk(&groups).unwrap();
    assert!(walk.visit(Some(100), Some(10)));
    assert!(!walk.visit(Some(50), Some(30)));
    assert_eq!(walk.result(), Some((50, 10)));
    let v1 = discover_cgroups(1, &mountinfo, &lines("4:memory:/x"));
    assert!(swap_walk(&v1).is_none());
}

#[test]
fn a_cgroup_directory_fails_without_a_hierarchy_a_cgroup_or_room() {
    let mountinfo = lines(MOUNTINFO);
    let mut out = Path::new();
    let mut mount = Path::new();
    assert!(mount.set(b"/kept"));
    // No cgroup line names the unified hierarchy.
    assert!(!cgroup_directory(2, b"", &mountinfo, &lines("4:memory:/a"), &mut out, &mut mount));
    // No mount line names a cpu hierarchy.
    assert!(!cgroup_directory(1, b"cpu", &mountinfo, &lines("3:cpu:/a"), &mut out, &mut mount));
    // The joined directory does not fit a path buffer.
    let long = format!("0::/{}", "d".repeat(500));
    assert!(!cgroup_directory(2, b"", &mountinfo, &lines(&long), &mut out, &mut mount));
    assert_eq!(mount.as_slice().to_vec(), b"/kept".to_vec());
}

#[test]
fn a_build_id_comes_from_the_first_segment_with_a_note() {
    let mut note: Vec<u8> = Vec::new();
    note.extend_from_slice(&[4, 0, 0, 0, 20, 0, 0, 0, 3, 0, 0, 0]);
    note.extend_from_slice(b"GNU\0");
    note.extend_from_slice(&[0xAB; 20]);
    let headers = vec![header(PT_LOAD, 0, 0x1000)];
    let empty = NoteSegment { start: 0x5000, align: 4, bytes: vec![0; 8] };
    let holding = NoteSegment { start: 0x6000, align: 4, bytes: note.clone() };
    let later = NoteSegment { start: 0x7000, align: 4, bytes: note };
    let segments = vec![empty.clone(), holding, later];
    assert_eq!(build_id_in(0x10000, 0x10000, &headers, &segments), Some((0x6010, 20)));
    // Another module's base, or no note at all, gives nothing.
    assert_eq!(build_id_in(0x20000, 0x10000, &headers, &segments), None);
    assert_eq!(build_id_in(0x10000, 0x10000, &headers, &vec![empty]), None);
}

#[test]
fn mappings_are_placed_only_for_page_multiple_alignments() {
    assert_eq!(mapping_span(0x3000, 0x10000, 0x1000), Some(0x3000 + 0xF000));
    assert_eq!(mapping_span(0x3000, 0x800, 0x1000), None);
    assert_eq!(mapping_span(0x3000, 0x3000, 0x1000), None);
    assert_eq!(mapping_span(usize::MAX, 0x10000, 0x1000), None);
    let total = 0x3000 + 0xF000;
    assert_eq!(mapping_placement(0x21000, total, 0x3000, 0x10000, 0x1000), Some((0x30000, 0xF000, 0)));
    assert_eq!(mapping_placement(0x20000, total, 0x3000, 0x10000, 0x1000), Some((0x20000, 0, 0xF000)));
    assert_eq!(mapping_placement(0x20800, total, 0x3000, 0x10000, 0x1000), None);
    assert_eq!(mapping_placement(0x20000, total + 1, 0x3000, 0x10000, 0x1000), None);
}
