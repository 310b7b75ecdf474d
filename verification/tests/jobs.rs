use std::sync::Arc;
use xpoz::settings::{App, FFmpeg, Media, Photos, Server, Settings};
use xpoz::transcoder::{
    classify_hdr, probe_indicates_hdr, valid_worker_count, FinishAction, FsEvent, Job, Transcoder,
};

fn test_settings(workers: usize) -> Settings {
    Settings {
        photos: Photos {
            library: "/library".to_string(),
            database: "/library/photos.db".to_string(),
            originals: "originals".to_string(),
            renders: "renders".to_string(),
            resized: "resized".to_string(),
            thumbs: "thumbs".to_string(),
        },
        server: Server {
            address: "127.0.0.1:8080".to_string(),
            public_dir: "public".to_string(),
            index_file: "index.html".to_string(),
            graphiql: false,
            ssl: false,
            cert: String::new(),
            key: String::new(),
        },
        app: App { database: "/app.db".to_string() },
        media: Media {
            transcode_videos: true,
            ffmpeg: FFmpeg {
                bin: "ffmpeg".to_string(),
                probe: "ffprobe".to_string(),
                sdr: vec!["-crf".to_string(), "23".to_string()],
                hdr: vec!["-vf".to_string(), "tonemap".to_string()],
            },
            workers,
            videos_path: "/videos".to_string(),
        },
    }
}

fn test_job(path: &str) -> Job {
    Job::new(path.to_string(), Arc::new(test_settings(2)))
}

#[test]
fn mp4_derives_the_output_name_from_the_identity_key() {
    let job = test_job("/library/originals/A1B2.mov");
    assert_eq!(job.mp4(), "A1B2.mp4");
}

#[test]
fn publish_path_is_under_the_videos_path() {
    let job = test_job("/library/originals/A1B2.mov");
    assert_eq!(job.publish_path(), "/videos/A1B2.mp4");
}

#[test]
fn temp_path_is_under_the_scratch_directory() {
    let job = test_job("/library/originals/A1B2.mov");
    assert_eq!(job.temp_path("/tmp"), "/tmp/A1B2.mp4");
}

#[test]
fn probe_invocation_asks_for_the_color_space() {
    let job = test_job("/library/originals/A1B2.mov");
    let inv = job.probe_invocation();
    assert_eq!(inv.program, "ffprobe");
    assert_eq!(
        inv.args,
        vec![
            "-show_entries".to_string(),
            "stream=color_space".to_string(),
            "-select_streams".to_string(),
            "v".to_string(),
            "-loglevel".to_string(),
            "panic".to_string(),
            "/library/originals/A1B2.mov".to_string(),
        ]
    );
}

#[test]
fn encoder_invocation_uses_the_sdr_arguments_by_default() {
    let job = test_job("/library/originals/A1B2.mov");
    let inv = job.encoder_invocation(false, "/tmp");
    assert_eq!(inv.program, "ffmpeg");
    assert_eq!(
        inv.args,
        vec![
            "-i".to_string(),
            "/library/originals/A1B2.mov".to_string(),
            "-crf".to_string(),
            "23".to_string(),
            "/tmp/A1B2.mp4".to_string(),
        ]
    );
}

#[test]
fn encoder_invocation_uses_the_hdr_arguments_for_wide_gamut() {
    let job = test_job("/library/originals/A1B2.mov");
    let inv = job.encoder_invocation(true, "/tmp");
    assert_eq!(
        inv.args,
        vec![
            "-i".to_string(),
            "/library/originals/A1B2.mov".to_string(),
            "-vf".to_string(),
            "tonemap".to_string(),
            "/tmp/A1B2.mp4".to_string(),
        ]
    );
}

#[test]
fn success_publishes_under_the_identity_key() {
    let job = test_job("/library/originals/A1B2.mov");
    match job.finish_action(true, "/tmp") {
        FinishAction::Publish { temp, target } => {
            assert_eq!(temp, "/tmp/A1B2.mp4");
            assert_eq!(target, "/videos/A1B2.mp4");
        }
        FinishAction::Discard { .. } => panic!("success must publish"),
    }
}

#[test]
fn failure_discards_the_scratch_file_and_publishes_nothing() {
    let job = test_job("/library/originals/A1B2.mov");
    match job.finish_action(false, "/tmp") {
        FinishAction::Discard { temp } => assert_eq!(temp, "/tmp/A1B2.mp4"),
        FinishAction::Publish { .. } => panic!("failure must not publish"),
    }
}

#[test]
fn probe_output_with_the_marker_classifies_as_hdr() {
    assert!(probe_indicates_hdr("color_space=bt2020nc\n"));
    assert!(!probe_indicates_hdr("color_space=bt709\n"));
    assert!(!probe_indicates_hdr(""));
}

#[test]
fn failed_probe_classifies_as_standard() {
    assert!(!classify_hdr(&None));
    assert!(classify_hdr(&Some("color_space=bt2020nc".to_string())));
    assert!(!classify_hdr(&Some("color_space=bt709".to_string())));
}

#[test]
fn worker_count_above_the_ceiling_is_rejected_before_any_scan() {
    assert!(valid_worker_count(24));
    assert!(!valid_worker_count(25));
    assert!(!valid_worker_count(100));
    assert!(valid_worker_count(0));
    assert!(valid_worker_count(1));
}

#[test]
fn a_create_event_for_a_video_enqueues_exactly_one_job() {
    let config = Arc::new(test_settings(2));
    let mut tc = Transcoder::new(config);
    let enqueued = tc.handle_event(FsEvent::Create("/library/originals/E5F6.mov".to_string()));
    assert!(enqueued);
    let job = tc.pop_job().expect("the event's job");
    assert_eq!(job.path, "/library/originals/E5F6.mov");
    assert!(tc.pop_job().is_none());
}

#[test]
fn non_video_creations_and_other_events_are_ignored() {
    let config = Arc::new(test_settings(2));
    let mut tc = Transcoder::new(config);
    assert!(!tc.handle_event(FsEvent::Create("/library/originals/notes.txt".to_string())));
    assert!(!tc.handle_event(FsEvent::Other));
    assert!(tc.pop_job().is_none());
}
