use std::sync::Arc;
use xpoz::settings::{App, FFmpeg, Media, Photos, Server, Settings};
use xpoz::transcoder::{published_keys, scan_jobs, ScanEntry, Transcoder};

fn test_settings(workers: usize) -> Settings {
    Settings {
        photos: Photos {
            library: "/library".to_string(),
            database: "/library/photos.db".to_string(),
            originals: "originals".to_string(),
            renders: "renders".to_string(),
            resized: "resized".to_string(),
            thumbs: "thumbs".to_string(),
        },
        server: Server {
            address: "127.0.0.1:8080".to_string(),
            public_dir: "public".to_string(),
            index_file: "index.html".to_string(),
            graphiql: false,
            ssl: false,
            cert: String::new(),
            key: String::new(),
        },
        app: App { database: "/app.db".to_string() },
        media: Media {
            transcode_videos: true,
            ffmpeg: FFmpeg {
                bin: "ffmpeg".to_string(),
                probe: "ffprobe".to_string(),
                sdr: vec!["-crf".to_string(), "23".to_string()],
                hdr: vec!["-vf".to_string(), "tonemap".to_string()],
            },
            workers,
            videos_path: "/videos".to_string(),
        },
    }
}

fn file(path: &str) -> ScanEntry {
    ScanEntry { path: path.to_string(), is_dir: false, is_symlink: false }
}

#[test]
fn published_keys_collects_keys_of_video_files_only() {
    let entries = vec![
        file("/videos/A1B2.mp4"),
        ScanEntry { path: "/videos/sub".to_string(), is_dir: true, is_symlink: false },
        ScanEntry { path: "/videos/link.mp4".to_string(), is_dir: false, is_symlink: true },
        file("/videos/notes.txt"),
        file("/videos/C3D4.MOV"),
    ];
    let keys = published_keys(&entries);
    assert_eq!(keys, vec!["A1B2".to_string(), "C3D4".to_string()]);
}

#[test]
fn scan_enqueues_nothing_for_published_and_one_job_for_new() {
    // The publish tree already holds A1B2.mp4; the source tree holds
    // A1B2.mov (published) and C3D4.MOV (new).
    let publish = vec![file("/videos/A1B2.mp4")];
    let sources = vec![file("/library/originals/A1B2.mov"), file("/library/originals/C3D4.MOV")];
    let config = Arc::new(test_settings(2));
    let published = published_keys(&publish);
    let jobs = scan_jobs(&published, &sources, &config);
    assert_eq!(jobs.len(), 1);
    assert_eq!(jobs[0].path, "/library/originals/C3D4.MOV");
}

#[test]
fn scan_skips_published_key_even_when_extension_and_casing_differ() {
    let publish = vec![file("/videos/A1B2.MP4")];
    let sources = vec![file("/library/originals/A1B2.mov")];
    let config = Arc::new(test_settings(2));
    let published = published_keys(&publish);
    let jobs = scan_jobs(&published, &sources, &config);
    assert_eq!(jobs.len(), 0);
}

#[test]
fn scan_enqueues_exactly_one_job_per_pending_file() {
    let publish: Vec<ScanEntry> = Vec::new();
    let sources = vec![
        file("/library/originals/A1B2.mov"),
        file("/library/originals/C3D4.mov"),
        file("/library/originals/readme.txt"),
    ];
    let config = Arc::new(test_settings(2));
    let published = published_keys(&publish);
    let jobs = scan_jobs(&published, &sources, &config);
    assert_eq!(jobs.len(), 2);
    assert_eq!(jobs[0].path, "/library/originals/A1B2.mov");
    assert_eq!(jobs[1].path, "/library/originals/C3D4.mov");
}

#[test]
fn scan_skips_directories_and_symlinks() {
    let publish: Vec<ScanEntry> = Vec::new();
    let sources = vec![
        ScanEntry { path: "/library/originals/dir.mp4".to_string(), is_dir: true, is_symlink: false },
        ScanEntry { path: "/library/originals/link.mp4".to_string(), is_dir: false, is_symlink: true },
    ];
    let config = Arc::new(test_settings(2));
    let published = published_keys(&publish);
    let jobs = scan_jobs(&published, &sources, &config);
    assert_eq!(jobs.len(), 0);
}

#[test]
fn transcoder_scan_fills_the_queue_with_the_diff() {
    let publish = vec![file("/videos/A1B2.mp4")];
    let sources = vec![file("/library/originals/A1B2.mov"), file("/library/originals/C3D4.MOV")];
    let config = Arc::new(test_settings(2));
    let mut tc = Transcoder::new(config);
    tc.scan(&publish, &sources);
    let job = tc.pop_job().expect("one job queued");
    assert_eq!(job.path, "/library/originals/C3D4.MOV");
    assert!(tc.pop_job().is_none());
}

#[test]
fn scan_of_empty_trees_enqueues_nothing() {
    let publish: Vec<ScanEntry> = Vec::new();
    let sources: Vec<ScanEntry> = Vec::new();
    let config = Arc::new(test_settings(2));
    let published = published_keys(&publish);
    let jobs = scan_jobs(&published, &sources, &config);
    assert!(jobs.is_empty());
}

#[test]
fn multi_dot_names_collide_on_the_part_before_the_first_dot() {
    // The dedup key deliberately stops at the first dot, so `a.b.mov`
    // counts as published once any `a.*` output exists.
    let publish = vec![file("/videos/a.mp4")];
    let sources = vec![file("/library/originals/a.b.mov")];
    let config = Arc::new(test_settings(2));
    let published = published_keys(&publish);
    let jobs = scan_jobs(&published, &sources, &config);
    assert_eq!(jobs.len(), 0);
}

#[test]
fn scan_jobs_share_the_one_configuration() {
    let publish: Vec<ScanEntry> = Vec::new();
    let sources = vec![file("/library/originals/A1B2.mov"), file("/library/originals/C3D4.mov")];
    let config = Arc::new(test_settings(2));
    let published = published_keys(&publish);
    let jobs = scan_jobs(&published, &sources, &config);
    assert_eq!(jobs.len(), 2);
    assert!(Arc::ptr_eq(&jobs[0].config, &config));
    assert!(Arc::ptr_eq(&jobs[1].config, &config));
}
