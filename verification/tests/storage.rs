use metastable::storage::{
    audio_file_extension, speech_upload, split_data_url, AudioFolder, AudioFormat, AudioUpload, ImageFolder, ImageUpload,
    R2Client, UploadError,
};

#[test]
fn folders_name_and_path() {
    assert_eq!(ImageFolder::Generated.as_str(), "generated");
    assert_eq!(ImageFolder::Thumbnails.path(), "images/thumbnails");
    assert_eq!(ImageFolder::default(), ImageFolder::Generated);
    assert_eq!(AudioFolder::Uploads.as_str(), "uploads");
    assert_eq!(AudioFolder::Temp.path(), "audio/temp");
    assert_eq!(AudioFolder::default(), AudioFolder::Generated);
}

#[test]
fn image_upload_from_data_url() {
    let up = ImageUpload::from_base64(ImageFolder::Avatars, "data:image/png;base64,aGVsbG8=").unwrap();
    assert_eq!(up.folder, ImageFolder::Avatars);
    assert_eq!(up.file_extension, "png");
    assert_eq!(up.data, b"hello".to_vec());
    assert_eq!(up.content_type(), "image/png");
    assert_eq!(
        split_data_url("data:image/jpeg;base64,AAA;base64,BBB").unwrap(),
        ("jpeg".to_string(), "AAA;base64,BBB".to_string())
    );
}

#[test]
fn image_upload_errors() {
    assert_eq!(ImageUpload::from_base64(ImageFolder::Temp, "image/png;base64,aGVsbG8=").err(), Some(UploadError::InvalidDataUrl));
    assert_eq!(ImageUpload::from_base64(ImageFolder::Temp, "data:image/png,aGVsbG8=").err(), Some(UploadError::InvalidBase64DataUrl));
    assert_eq!(ImageUpload::from_base64(ImageFolder::Temp, "data:image/png;base64,!!!").err(), Some(UploadError::DecodeFailed));
}

#[test]
fn object_keys() {
    let up = ImageUpload::new(ImageFolder::Uploads, "webp".to_string(), vec![1, 2]);
    assert_eq!(
        up.key_with_id(0x67e5_5044_10b1_426f_9247_bb68_0e5f_e0c8),
        "images/uploads/67e55044-10b1-426f-9247-bb680e5fe0c8.webp"
    );
    let key = up.key().expect("the system's random source works here");
    assert!(key.starts_with("images/uploads/"));
    assert!(key.ends_with(".webp"));
    assert_eq!(key.len(), "images/uploads/".len() + 36 + ".webp".len());
    // A fresh identifier is a version 4 identifier.
    let id = &key["images/uploads/".len().."images/uploads/".len() + 36];
    assert_eq!(&id[14..15], "4");
    assert!(["8", "9", "a", "b"].contains(&&id[19..20]));
    let audio = AudioUpload::new(AudioFolder::Generated, "mp3".to_string(), vec![]);
    assert_eq!(audio.key_with_id(1), "audio/generated/00000000-0000-0000-0000-000000000001.mp3");
    assert!(audio.key().expect("the system's random source works here").starts_with("audio/generated/"));
}

#[test]
fn audio_content_types() {
    for ext in ["mp3", "wav", "opus", "pcm", "flac"] {
        let up = AudioUpload::new(AudioFolder::Uploads, ext.to_string(), vec![]);
        assert_eq!(up.content_type(), format!("audio/{}", ext));
    }
}

#[test]
fn speech_uploads_use_the_format_extension() {
    assert_eq!(audio_file_extension(None), "mp3");
    assert_eq!(audio_file_extension(Some(AudioFormat::Opus)), "opus");
    assert_eq!(audio_file_extension(Some(AudioFormat::Wav)), "wav");
    assert_eq!(audio_file_extension(Some(AudioFormat::Pcm)), "pcm");
    let up = speech_upload(Some(AudioFormat::Wav), vec![7]);
    assert_eq!(up.folder, AudioFolder::Generated);
    assert_eq!(up.file_extension, "wav");
    assert_eq!(up.data, vec![7]);
}

#[test]
fn public_urls() {
    let c = R2Client { bucket_name: "media".to_string(), public_domain: None };
    assert_eq!(c.bucket_name(), "media");
    assert_eq!(c.public_domain(), "media.r2.dev");
    assert_eq!(c.public_url("images/a.png"), "https://media.r2.dev/media/images/a.png");
    let d = R2Client { bucket_name: "media".to_string(), public_domain: Some("cdn.example.com".to_string()) };
    assert_eq!(d.public_url("k"), "https://cdn.example.com/media/k");
}
