use lact_daemon::fdinfo::{parse_fdinfo, ProcessUtilizationType};

const DRM_VRAM_KEYS: &[&str] = &["drm-total-vram0", "drm-total-local0", "drm-total-system0"];
const DRM_ENGINES: &[(&str, ProcessUtilizationType)] = &[
    ("render", ProcessUtilizationType::Graphics),
    ("compute", ProcessUtilizationType::Compute),
    ("video", ProcessUtilizationType::Decode),
];

#[test]
fn parse_dg2_fdinfo() {
    let data = "\
pos:    0
flags:  02100002
mnt_id: 29
ino:    446
drm-driver:     i915
drm-client-id:  1261
drm-pdev:       0000:0a:00.0
drm-total-system0:      272 KiB
drm-shared-system0:     0
drm-active-system0:     0
drm-resident-system0:   272 KiB
drm-purgeable-system0:  0
drm-total-local0:       21896 KiB
drm-shared-local0:      4 MiB
drm-active-local0:      0
drm-resident-local0:    19848 KiB
drm-purgeable-local0:   64 KiB
drm-total-stolen-local0:        0
drm-shared-stolen-local0:       0
drm-active-stolen-local0:       0
drm-resident-stolen-local0:     0
drm-purgeable-stolen-local0:    0
drm-engine-render:      371387589 ns
drm-engine-copy:        0 ns
drm-engine-video:       0 ns
drm-engine-capacity-video:      2
drm-engine-video-enhance:       0 ns
drm-engine-capacity-video-enhance:      2
drm-engine-compute:     0 ns\
        ";

    let util = parse_fdinfo(data, DRM_VRAM_KEYS, DRM_ENGINES).unwrap();
    assert_eq!(1261, util.client_id);
    assert_eq!(22_421_504, util.memory_used);
    assert_eq!(
        (ProcessUtilizationType::Graphics, 371_387_589),
        util.total_time[0]
    );
    assert_eq!((ProcessUtilizationType::Compute, 0), util.total_time[1]);
    assert_eq!((ProcessUtilizationType::Decode, 0), util.total_time[2]);
}

#[test]
fn parse_xe_sample_fdinfo() {
    let data = "\
pos:    0
flags:  0100002
mnt_id: 26
ino:    685
drm-driver:     xe
drm-client-id:  3
drm-pdev:       0000:03:00.0
drm-total-system:       0
drm-shared-system:      0
drm-active-system:      0
drm-resident-system:    0
drm-purgeable-system:   0
drm-total-gtt:  192 KiB
drm-shared-gtt: 0
drm-active-gtt: 0
drm-resident-gtt:       192 KiB
drm-total-vram0:        23992 KiB
drm-shared-vram0:       16 MiB
drm-active-vram0:       0
drm-resident-vram0:     23992 KiB
drm-total-stolen:       0
drm-shared-stolen:      0
drm-active-stolen:      0
drm-resident-stolen:    0
drm-cycles-rcs: 28257900
drm-total-cycles-rcs:   7655183225
drm-cycles-bcs: 0
drm-total-cycles-bcs:   7655183225
drm-cycles-vcs: 0
drm-total-cycles-vcs:   7655183225
drm-engine-capacity-vcs:        2
drm-cycles-vecs:        0
drm-total-cycles-vecs:  7655183225
drm-engine-capacity-vecs:       2
drm-cycles-ccs: 0
drm-total-cycles-ccs:   7655183225
drm-engine-capacity-ccs:        4\
        ";
    let util = parse_fdinfo(data, DRM_VRAM_KEYS, DRM_ENGINES).unwrap();
    assert_eq!(3, util.client_id);
    assert_eq!(24_567_808, util.memory_used);
}

#[test]
fn first_present_vram_key_wins() {
    let data = "drm-client-id: 1261\ndrm-total-local0: 21896 KiB\ndrm-total-system0: 272 KiB\n";
    let util = parse_fdinfo(data, DRM_VRAM_KEYS, DRM_ENGINES).unwrap();
    assert_eq!(util.client_id, 1261);
    assert_eq!(util.memory_used, 22_421_504);
}

#[test]
fn record_without_client_id_fails() {
    assert!(parse_fdinfo("drm-total-vram0: 4 MiB\n", DRM_VRAM_KEYS, DRM_ENGINES).is_none());
    assert!(parse_fdinfo("drm-client-id: abc\n", DRM_VRAM_KEYS, DRM_ENGINES).is_none());
}

#[test]
fn record_ends_at_blank_line() {
    let data = "drm-client-id: 5\n\ndrm-total-vram0: 4 MiB\n";
    let util = parse_fdinfo(data, DRM_VRAM_KEYS, DRM_ENGINES).unwrap();
    assert_eq!(util.memory_used, 0);
}

#[test]
fn units_and_malformed_lines() {
    let data = "garbage line\ndrm-client-id:\t9\ndrm-total-vram0: 12 GiB\ndrm-total-local0: 4 MiB\n";
    let util = parse_fdinfo(data, DRM_VRAM_KEYS, DRM_ENGINES).unwrap();
    assert_eq!(util.client_id, 9);
    assert_eq!(util.memory_used, 4 * 1024 * 1024);
    assert_eq!(util.total_time.len(), 3);
    assert_eq!(util.total_time[2], (ProcessUtilizationType::Decode, 0));
}

#[test]
fn cycles_take_precedence_over_nanoseconds() {
    let engines: &[(&str, ProcessUtilizationType)] = &[
        ("rcs", ProcessUtilizationType::Graphics),
        ("vcs", ProcessUtilizationType::Decode),
    ];
    let data = "drm-client-id: 3\ndrm-cycles-rcs: 28257900\ndrm-total-cycles-rcs: 7655183225\ndrm-engine-rcs: 99 ns\ndrm-cycles-vcs: 12\ndrm-engine-vcs: 77 ns\n";
    let util = parse_fdinfo(data, DRM_VRAM_KEYS, engines).unwrap();
    assert_eq!(util.total_time[0], (ProcessUtilizationType::Graphics, 28_257_900));
    assert_eq!(util.total_time[1], (ProcessUtilizationType::Decode, 77));
}
