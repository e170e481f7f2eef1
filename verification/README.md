# wl-translate

On-screen OCR, translation and screenshots for Wayland, with the decisions
verified by Verus.

The program is a set of verbs that a compositor binds to keys: translate the
selection or the clipboard, read a region of the screen, take an annotated
screenshot. What it decides is proved; what it runs (slurp, grim, wl-clipboard,
hyprctl, the recogniser, the network, the windows) is not.

## Layout

`src/` is the verified library.

| module | what it holds |
|---|---|
| `geom` | points, rectangles, corners and edges, the dimming, the toolbars' places, the way to pixels |
| `image`, `redact` | PNG files and their pixels, cropping, and the averaging that redacts |
| `annotate` | tools, annotations, their outlines, and what they come to on the image |
| `overlay`, `canvas` | what the overlay does with every pointer and key event, and what it paints |
| `capture`, `clip`, `hyprland`, `shot` | which programs to run, what their answers mean, how a screenshot is taken |
| `ocr`, `translate`, `pipeline` | from an image to a text to a translation, step by step |
| `settings`, `cli`, `ipc`, `ui` | languages, the command line, the daemon's interface, the window |
| `text`, `json`, `paths`, `command` | the text, JSON, path and process values the others speak of |

`app/` is the program around it: argument parsing, processes, D-Bus, HTTP, GTK,
Tesseract, and the drawing that works in floating point. `tests/` runs the
library.

## Numbers

Positions on the screen are whole numbers of 256ths of a point, and a scale is a
whole number of 120ths, as Wayland itself counts them. Their product is a
subpixel: 30720 to a pixel. Colours are in percent.

## Laws

Functions named `law_...` state what holds of the library as a whole: that
redaction keeps nothing but averages, that undo hands a step number back, that
typing a caption never commits the shot, that a frozen screen is held until after
the grab, that a verb survives the bus, and so on.
They are proofs and cost nothing at run time.
