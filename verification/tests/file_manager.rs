use urms::file::{FileInfo, FileManager};

#[test]
fn test_new_file_manager() {
    let manager = FileManager::new();
    assert_eq!(manager.name, "FileManager");
    assert_eq!(manager.files.len(), 0);
    assert_eq!(manager.storage_stats.total_size, 0);
}

#[test]
fn test_file_info_structure() {
    let file_info = FileInfo {
        path: "/tmp/test.pdf".to_string(),
        name: "test.pdf".to_string(),
        size: 1024,
        file_type: "document".to_string(),
        modified: 123456789,
    };
    assert_eq!(file_info.path, "/tmp/test.pdf");
    assert_eq!(file_info.name, "test.pdf");
    assert_eq!(file_info.size, 1024);
    assert_eq!(file_info.file_type, "document");
}

#[test]
fn test_classify_file_document() {
    let manager = FileManager::new();
    assert_eq!(manager.classify_file("document.pdf"), "document");
    assert_eq!(manager.classify_file("report.docx"), "document");
    assert_eq!(manager.classify_file("spreadsheet.xlsx"), "document");
}

#[test]
fn test_classify_file_image() {
    let manager = FileManager::new();
    assert_eq!(manager.classify_file("photo.jpg"), "image");
    assert_eq!(manager.classify_file("screenshot.png"), "image");
    assert_eq!(manager.classify_file("animation.gif"), "image");
}

#[test]
fn test_classify_file_video() {
    let manager = FileManager::new();
    assert_eq!(manager.classify_file("movie.mp4"), "video");
    assert_eq!(manager.classify_file("clip.mkv"), "video");
}

#[test]
fn test_classify_file_audio() {
    let manager = FileManager::new();
    assert_eq!(manager.classify_file("song.mp3"), "audio");
    assert_eq!(manager.classify_file("sound.wav"), "audio");
}

#[test]
fn test_classify_file_archive() {
    let manager = FileManager::new();
    assert_eq!(manager.classify_file("archive.zip"), "archive");
    assert_eq!(manager.classify_file("backup.rar"), "archive");
    assert_eq!(manager.classify_file("package.7z"), "archive");
}

#[test]
fn test_classify_file_other() {
    let manager = FileManager::new();
    assert_eq!(manager.classify_file("random.xyz"), "other");
    assert_eq!(manager.classify_file("executable.exe"), "other");
}

#[test]
fn test_classify_file_case_insensitive() {
    let manager = FileManager::new();
    assert_eq!(manager.classify_file("DOCUMENT.PDF"), "document");
    assert_eq!(manager.classify_file("Photo.JPG"), "image");
}

#[test]
fn test_storage_stats_over_listing() {
    let mut manager = FileManager::new();
    let listing = vec![
        FileInfo {
            path: "/d/a.pdf".to_string(),
            name: "a.pdf".to_string(),
            size: 100,
            file_type: "document".to_string(),
            modified: 0,
        },
        FileInfo {
            path: "/d/b.pdf".to_string(),
            name: "b.pdf".to_string(),
            size: 50,
            file_type: "document".to_string(),
            modified: 0,
        },
        FileInfo {
            path: "/d/c.png".to_string(),
            name: "c.png".to_string(),
            size: 7,
            file_type: "image".to_string(),
            modified: 0,
        },
    ];
    manager.record_listing(listing);
    let stats = manager.get_storage_stats().unwrap();
    assert_eq!(stats.total_size, 1024 * 1024 * 1024);
    assert_eq!(stats.used_size, 157);
    assert_eq!(stats.free_size, 1024 * 1024 * 1024 - 157);
    assert_eq!(stats.file_count, 3);
    let mut doc = None;
    let mut img = None;
    for (cat, total) in &stats.category_breakdown {
        if cat == "document" {
            doc = Some(*total);
        }
        if cat == "image" {
            img = Some(*total);
        }
    }
    assert_eq!(doc, Some(150));
    assert_eq!(img, Some(7));
}

#[test]
fn test_storage_stats_empty_listing() {
    let manager = FileManager::new();
    let stats = manager.get_storage_stats().unwrap();
    assert_eq!(stats.used_size, 0);
    assert_eq!(stats.file_count, 0);
    assert!(stats.category_breakdown.is_empty());
}
