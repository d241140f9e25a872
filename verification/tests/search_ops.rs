use file_explorer::engine::AISearchEngine;
use file_explorer::metadata::FileMetadata;
use file_explorer::search::SearchHit;

fn meta(path: &str) -> FileMetadata {
    FileMetadata {
        id: None,
        path: path.to_string(),
        filename: "f".into(),
        file_type: "image".into(),
        size: 1,
        modified: None,
        created: None,
        thumbnail_path: None,
        thumb_b64: None,
        hash: None,
        description: None,
        caption: None,
        tags: vec![],
        category: None,
        text_content: None,
        embedding: None,
        clip_embedding: None,
        segments: None,
    }
}

fn hit(path: &str, score: f32) -> SearchHit {
    SearchHit { text: format!("FILE_PATH:{}\nHASH:\nbody", path), score_bits: score.to_bits() }
}

#[test]
fn hits_ranked_best_first_once_per_file() {
    let mut e = AISearchEngine::new();
    e.store_file(meta("/a.png"));
    e.store_file(meta("/b.png"));
    let hits = vec![
        hit("/a.png", 0.25),
        hit("/b.png", 0.5),
        hit("/a.png", 0.75),
        hit("/unknown.png", 0.9),
        SearchHit { text: "no header".into(), score_bits: 1.0f32.to_bits() },
    ];
    let ranked = e.rank_search_hits(&hits);
    assert_eq!(ranked.len(), 2);
    assert_eq!(ranked[0].0.path, "/a.png");
    assert_eq!(f32::from_bits(ranked[0].1), 0.75);
    assert_eq!(ranked[1].0.path, "/b.png");
    assert_eq!(f32::from_bits(ranked[1].1), 0.5);
}

#[test]
fn at_most_fifty_results() {
    let mut e = AISearchEngine::new();
    let mut hits = Vec::new();
    for i in 0..60u32 {
        let p = format!("/f{}.png", i);
        e.store_file(meta(&p));
        hits.push(hit(&p, i as f32 / 100.0));
    }
    let ranked = e.rank_search_hits(&hits);
    assert_eq!(ranked.len(), 50);
    assert_eq!(ranked[0].0.path, "/f59.png");
    assert_eq!(ranked[49].0.path, "/f10.png");
}
