# yolo26_pose

A YOLO26 pose-estimation pipeline (TensorRT inference, COCO-17 keypoints,
GPU pose-rig overlay, JPEG/PNG and MP4 annotation) whose integer and text
logic is verified with Verus.

- `src/` is the verified library:
  - `paths`: lower-cased file extensions and the engine cache file name;
  - `plan`: which pipeline a run takes from the source and output extensions;
  - `letterbox`: resize (through `fast_image_resize`), centred padding with
    114 and the planar RGB layout of the model input;
  - `engine`: checking and mapping the bindings of a TensorRT engine;
  - `readback`: row padding of GPU readback buffers and its removal;
  - `skeleton`: COCO keypoint names, limbs, and which are drawn;
  - `frames`: assembling raw frames from the decoder pipe, progress schedule;
  - `probe`: parsing `ffprobe` output;
  - `text`: small string helpers.
- `app/` is the program around it: command line, TensorRT and ONNX Runtime,
  `wgpu` rendering, FFmpeg processes, and the floating-point parts (scale
  computation, tensor normalisation, pose decoding, vertex geometry).
- `tests/` exercise the library on concrete values.
