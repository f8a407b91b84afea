# AssetLab

Upload videos, transcode them into 360p/720p/1080p renditions, and play them
back by id.

- `src/` is the verified library (Verus): the decisions of the HTTP API and
  of the transcode worker.
  - `upload.rs`: the upload handler as a state machine. The file field is
    streamed to object storage as a multipart upload in 5 MiB parts; the
    proofs show that the stored parts are the file, cut the same way however
    it arrived, and that less than one part is held between chunks. After the
    upload the video's status (`pending`) and its queue marker are written.
  - `worker.rs`: a pass over the queue (list, then claim and run each job)
    and the transcode job (processing status, MediaConvert job, polling,
    listing, raw deletion, done or error status) as state machines. Each
    rendition `q` is a file output group of its own whose destination ends
    in `q`, so MediaConvert writes it as `videos/<id>/<q>.mp4`. A failed or
    canceled job is recorded as an error status.
  - `renditions.rs`: the rendition table, the transcode profile, and how
    quality names are read back from the transcoded files and sorted.
  - `auth.rs`: the `Authorization: Bearer` check of the upload endpoint.
  - `video.rs`: the playback endpoints (raw URLs presigned for one hour).
  - `presign.rs`: a presigned GET, whose configuration and stated validity
    come from one call of the SDK.
  - `keys.rs`: the object keys and URLs both programs agree on.
  - `config.rs` (including the CORS policy), `error.rs`, `status.rs` (the
    status document's fields), `state.rs`, `ids.rs`, `text.rs`:
    settings, errors, the status document, shared state, fresh ids, and
    string helpers.
- `app/` runs the API (default) or the worker (`worker` argument): HTTP with
  axum, S3 and MediaConvert with the AWS SDK, JSON with serde.
- `tests/` exercises the library on concrete values.

Environment: `AWS_ACCESS_KEY_ID`, `AWS_SECRET_ACCESS_KEY`,
`AWS_DEFAULT_REGION` (default `eu-west-3`), `S3_RAW_BUCKET`,
`S3_VIDEO_BUCKET`, `CLOUDFRONT_DOMAIN` (API), `ADMIN_TOKEN` (API),
`CORS_ORIGINS` (API, optional), `PORT` (API, default 3000),
`MEDIACONVERT_ROLE_ARN` (worker), `RUST_LOG` (default `info`).
