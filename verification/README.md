# three_d_engine

A wireframe 3D model viewer.

- `src/` is the verified library (Verus):
  - `controls`: keyboard layouts (QWERTY / AZERTY) and the per-frame camera
    movement decided from the held keys.
  - `mesh`: the model (`Mesh<V>`, whose faces always name existing vertices),
    the cube topology, and the grouping of flat OBJ buffers into vertices and
    triangles.
  - `wireframe`: which projected vertices are marked and which segments are
    drawn, face by face, each face as a closed outline.
- `app/` is the window (eframe/egui), the file dialog (rfd), OBJ loading
  (tobj) and all floating-point geometry (glam), which the library does not
  hold.
- `tests/` exercises the library on concrete values.
